use codex_xray::json::{JsonNumber, JsonValue};
use codex_xray::response_stream::ResponseStream;
use codex_xray::responses::responses_to_chat;

fn to_json(value: &serde_json::Value) -> JsonValue {
    match value {
        serde_json::Value::Null => JsonValue::Null,
        serde_json::Value::Bool(b) => JsonValue::Bool(*b),
        serde_json::Value::Number(n) => {
            if let Some(u) = n.as_u64() {
                JsonValue::Number(JsonNumber::Unsigned(u))
            } else if let Some(i) = n.as_i64() {
                JsonValue::Number(JsonNumber::Negative(i))
            } else {
                JsonValue::Number(JsonNumber::Decimal(n.to_string()))
            }
        }
        serde_json::Value::String(s) => JsonValue::String(s.clone()),
        serde_json::Value::Array(items) => JsonValue::Array(items.iter().map(to_json).collect()),
        serde_json::Value::Object(map) => JsonValue::Object(
            map.iter().map(|(k, v)| (k.clone(), to_json(v))).collect(),
        ),
    }
}

fn parse(text: &str) -> JsonValue {
    to_json(&serde_json::from_str::<serde_json::Value>(text).unwrap())
}

fn array_len(value: &JsonValue) -> usize {
    value.as_array().expect("array").len()
}

fn item(value: &JsonValue, index: usize) -> &JsonValue {
    &value.as_array().expect("array")[index]
}

#[test]
fn converts_responses_messages_and_tools_to_chat() {
    let request = parse(
        r#"{
            "model": "deepseek-chat",
            "instructions": "Be concise.",
            "input": [
                {"type": "message", "role": "user", "content": [{"type": "input_text", "text": "List files"}]},
                {"type": "function_call", "call_id": "call_1", "name": "exec", "arguments": "{\"cmd\":\"ls\"}"},
                {"type": "function_call_output", "call_id": "call_1", "output": "README.md"}
            ],
            "tools": [
                {"type": "function", "name": "exec", "description": "Run a command", "parameters": {"type": "object"}},
                {"type": "web_search"}
            ],
            "tool_choice": "auto",
            "parallel_tool_calls": false
        }"#,
    );
    let chat = responses_to_chat(&request).expect("convert request");
    assert_eq!(chat.str_at("model"), Some("deepseek-chat"));
    let messages = chat.get("messages").expect("messages");
    assert_eq!(array_len(messages), 4);
    assert_eq!(array_len(chat.get("tools").expect("tools")), 1);
    let calls = item(messages, 2).get("tool_calls").expect("calls");
    assert_eq!(item(calls, 0).str_at("id"), Some("call_1"));
    assert_eq!(item(messages, 3).str_at("role"), Some("tool"));
}

#[test]
fn groups_parallel_function_calls_into_one_assistant_message() {
    let chat = responses_to_chat(&parse(
        r#"{
            "model": "chat-model",
            "input": [
                {"type": "message", "role": "user", "content": "Inspect both"},
                {"type": "function_call", "call_id": "call_1", "name": "read_file", "arguments": "{\"path\":\"a\"}"},
                {"type": "function_call", "call_id": "call_2", "name": "read_file", "arguments": "{\"path\":\"b\"}"},
                {"type": "function_call_output", "call_id": "call_1", "output": "A"},
                {"type": "function_call_output", "call_id": "call_2", "output": "B"}
            ]
        }"#,
    ))
    .expect("convert parallel calls");
    let messages = chat.get("messages").expect("messages");
    assert_eq!(array_len(messages), 4);
    assert_eq!(array_len(item(messages, 1).get("tool_calls").expect("calls")), 2);
    assert_eq!(item(messages, 2).str_at("role"), Some("tool"));
    assert_eq!(item(messages, 3).str_at("role"), Some("tool"));
}

#[test]
fn refuses_requests_without_model_or_with_unknown_input() {
    let blank = responses_to_chat(&parse(r#"{"model": "  ", "input": "hi"}"#));
    assert_eq!(blank.expect_err("blank model"), "Responses 请求缺少 model。");
    let number = responses_to_chat(&parse(r#"{"model": "m", "input": 3}"#));
    assert_eq!(number.expect_err("number input"), "Responses input 必须是字符串或数组。");
    let unknown = responses_to_chat(&parse(r#"{"model": "m", "input": [{"type": "file_search_call"}]}"#));
    assert_eq!(
        unknown.expect_err("unknown item"),
        "Chat 兼容桥暂不支持 Responses input 类型 file_search_call。"
    );
}

#[test]
fn refuses_more_than_128_function_tools() {
    let tools: Vec<String> = (0..129).map(|k| format!(r#"{{"type": "function", "name": "t{k}"}}"#)).collect();
    let request = parse(&format!(r#"{{"model": "m", "input": "hi", "tools": [{}]}}"#, tools.join(",")));
    assert_eq!(
        responses_to_chat(&request).expect_err("too many"),
        "当前任务提供了 129 个函数工具，超过 Chat 兼容桥的 128 个上限。请在 Codex 中停用不需要的 MCP、插件或 Skill 后重试。"
    );
}

#[test]
fn carries_sampling_settings_and_text_of_structured_output() {
    let chat = responses_to_chat(&parse(
        r#"{
            "model": "m",
            "input": [
                {"type": "reasoning", "summary": []},
                {"type": "function_call_output", "call_id": "c", "output": {"ok": true, "lines": [1, -2, "x\n"]}},
                {"role": "assistant", "content": [{"type": "output_text", "text": "done"}]},
                {"type": "message", "content": [{"type": "input_image", "image_url": "data:x"}, {"type": "input_text"}]}
            ],
            "max_output_tokens": 64,
            "temperature": null,
            "top_p": 0.5,
            "tool_choice": {"type": "function", "name": "exec"}
        }"#,
    ))
    .expect("convert");
    let messages = chat.get("messages").expect("messages");
    assert_eq!(array_len(messages), 3);
    assert_eq!(item(messages, 0).str_at("content"), Some(r#"{"lines":[1,-2,"x\n"],"ok":true}"#));
    assert_eq!(item(messages, 1).str_at("content"), Some("done"));
    assert_eq!(item(messages, 2).str_at("role"), Some("user"));
    let parts = item(messages, 2).get("content").expect("parts");
    assert_eq!(array_len(parts), 2);
    assert_eq!(item(parts, 0).pointer(&["image_url", "url"]).and_then(|v| v.as_str()), Some("data:x"));
    assert_eq!(item(parts, 1).str_at("text"), Some(""));
    assert_eq!(chat.get("max_tokens").and_then(|v| v.as_u64()), Some(64));
    assert!(chat.get("temperature").is_none());
    assert!(chat.get("top_p").is_some());
    // No function tools were offered, so no tool choice is passed on.
    assert!(chat.get("tools").is_none());
    assert!(chat.get("tool_choice").is_none());
}

#[test]
fn writes_compact_json_text_with_escapes() {
    let value = parse(r#"{"a": [true, null, 1.5, -3], "b": "q\"\\\u0001\t"}"#);
    assert_eq!(value.to_text(), r#"{"a":[true,null,1.5,-3],"b":"q\"\\\u0001\t"}"#);
}

#[test]
fn converts_chat_text_and_tool_stream_to_responses_events() {
    let mut stream = ResponseStream::new("deepseek-chat".to_string(), 1_700_000_000, 1);
    let mut frames = stream.start();
    frames.extend(stream.consume_chat_chunk(&parse(
        r#"{"model": "deepseek-chat", "choices": [{"delta": {"content": "Checking "}}]}"#,
    )));
    frames.extend(stream.consume_chat_chunk(&parse(
        r#"{"choices": [{"delta": {"tool_calls": [{
            "index": 0,
            "id": "call_1",
            "type": "function",
            "function": {"name": "exec", "arguments": "{\"cmd\":"}
        }]}}]}"#,
    )));
    frames.extend(stream.consume_chat_chunk(&parse(
        r#"{"choices": [{"delta": {"tool_calls": [{
            "index": 0,
            "function": {"name": "exec", "arguments": "\"ls\"}"}
        }]}}],
        "usage": {
            "prompt_tokens": 20,
            "prompt_cache_hit_tokens": 12,
            "completion_tokens": 4,
            "total_tokens": 24
        }}"#,
    )));
    frames.extend(stream.finish());
    let output = frames.concat();
    assert!(output.contains("response.output_text.delta"));
    assert!(output.contains("response.function_call_arguments.delta"));
    assert!(output.contains("\\\"cmd\\\":\\\"ls\\\""));
    assert!(!output.contains("\"name\":\"execexec\""));
    assert!(output.contains("\"input_tokens\":20"));
    assert!(output.contains("\"cached_tokens\":12"));
    assert!(output.contains("response.completed"));
}

fn sse_events(frames: &[String]) -> Vec<serde_json::Value> {
    frames
        .iter()
        .flat_map(|frame| frame.lines())
        .filter_map(|line| line.strip_prefix("data: "))
        .map(|data| serde_json::from_str::<serde_json::Value>(data).expect("event json"))
        .collect()
}

#[test]
fn numbers_events_in_order_and_ends_only_once() {
    let mut stream = ResponseStream::new("m".to_string(), 7, 3);
    let mut frames = stream.start();
    frames.extend(stream.consume_chat_chunk(&parse(r#"{"choices": [{"delta": {"content": "a"}}]}"#)));
    frames.extend(stream.consume_chat_chunk(&parse(r#"{"choices": [{"delta": {"content": "b"}}]}"#)));
    frames.extend(stream.finish());
    assert!(stream.finish().is_empty());
    assert!(stream.fail("late".to_string()).is_empty());
    assert!(frames[0].starts_with("event: response.created\ndata: {"));
    let events = sse_events(&frames);
    for (k, event) in events.iter().enumerate() {
        assert_eq!(event["sequence_number"], k as u64);
    }
    let kinds: Vec<&str> = events.iter().map(|e| e["type"].as_str().unwrap()).collect();
    assert_eq!(
        kinds,
        vec![
            "response.created",
            "response.output_item.added",
            "response.content_part.added",
            "response.output_text.delta",
            "response.output_text.delta",
            "response.output_text.done",
            "response.content_part.done",
            "response.output_item.done",
            "response.completed",
        ]
    );
    assert_eq!(events[0]["response"]["id"], "resp_xray_7_3");
    assert!(events[0]["response"]["usage"].is_null());
    let done = &events[8]["response"];
    assert_eq!(done["output"][0]["content"][0]["text"], "ab");
    assert_eq!(done["output"][0]["id"], "msg_resp_xray_7_3");
    assert!(done["output"][0].get("_output_index").is_none());
    assert_eq!(done["usage"]["total_tokens"], 0);
}

#[test]
fn orders_completed_output_by_first_appearance() {
    let mut stream = ResponseStream::new("m".to_string(), 1, 1);
    stream.consume_chat_response(&parse(
        r#"{"choices": [{"message": {"tool_calls": [{"function": {"arguments": "{}"}}]}}],
            "usage": {"prompt_tokens": 3, "completion_tokens": 2}}"#,
    ));
    stream.consume_chat_chunk(&parse(r#"{"choices": [{"delta": {"content": "hi"}}]}"#));
    let frames = stream.finish();
    let events = sse_events(&frames);
    let kinds: Vec<&str> = events.iter().map(|e| e["type"].as_str().unwrap()).collect();
    assert_eq!(
        kinds,
        vec![
            "response.output_text.done",
            "response.content_part.done",
            "response.output_item.done",
            "response.output_item.added",
            "response.function_call_arguments.done",
            "response.output_item.done",
            "response.completed",
        ]
    );
    // A call that never got a name is opened only when the reply ends.
    assert_eq!(events[3]["item"]["call_id"], "call_resp_xray_1_1_0");
    let output = &events[6]["response"]["output"];
    assert_eq!(output[0]["type"], "function_call");
    assert_eq!(output[0]["arguments"], "{}");
    assert_eq!(output[1]["type"], "message");
    assert_eq!(events[6]["response"]["usage"]["total_tokens"], 5);
}

#[test]
fn a_failed_stream_reports_the_error() {
    let mut stream = ResponseStream::new("m".to_string(), 1, 2);
    let frames = stream.fail("upstream closed".to_string());
    let events = sse_events(&frames);
    assert_eq!(events.len(), 1);
    assert_eq!(events[0]["type"], "response.failed");
    assert_eq!(events[0]["response"]["error"]["code"], "chat_bridge_stream_error");
    assert_eq!(events[0]["response"]["error"]["message"], "upstream closed");
    assert_eq!(events[0]["response"]["status"], "failed");
    assert!(stream.finish().is_empty());
}
