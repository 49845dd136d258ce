use codex_xray::bridge_service::{
    authorize_with, bridge_credential, bridge_model_info, is_event_stream, models_reply, plan_upstream,
    stream_model, unauthorized_reply, unreachable_reply, unreadable_reply,
};
use codex_xray::chat_bridge::ChatBridgeProvider;
use codex_xray::json::{JsonNumber, JsonValue};
use codex_xray::response_stream::ResponseStream;

fn to_json(value: &serde_json::Value) -> JsonValue {
    match value {
        serde_json::Value::Null => JsonValue::Null,
        serde_json::Value::Bool(b) => JsonValue::Bool(*b),
        serde_json::Value::Number(n) => {
            if let Some(u) = n.as_u64() {
                JsonValue::Number(JsonNumber::Unsigned(u))
            } else if let Some(i) = n.as_i64() {
                JsonValue::Number(JsonNumber::Negative(i))
            } else {
                JsonValue::Number(JsonNumber::Decimal(n.to_string()))
            }
        }
        serde_json::Value::String(s) => JsonValue::String(s.clone()),
        serde_json::Value::Array(items) => JsonValue::Array(items.iter().map(to_json).collect()),
        serde_json::Value::Object(map) => JsonValue::Object(
            map.iter().map(|(k, v)| (k.clone(), to_json(v))).collect(),
        ),
    }
}

fn parse(text: &str) -> JsonValue {
    to_json(&serde_json::from_str::<serde_json::Value>(text).unwrap())
}

fn chat_provider(mode: &str, env_key: Option<&str>, model: &str, context_window: u64) -> ChatBridgeProvider {
    ChatBridgeProvider {
        upstream_base_url: "https://api.example.com/v1/".to_string(),
        credential_mode: mode.to_string(),
        env_key: env_key.map(str::to_string),
        model: model.to_string(),
        context_window,
    }
}

fn error_message(body: &JsonValue) -> String {
    body.pointer(&["error", "message"]).and_then(|m| m.as_str()).expect("message").to_string()
}

#[test]
fn lists_the_model_or_says_why_not() {
    let missing = models_reply("ghost", None);
    assert_eq!(missing.status, 404);
    assert_eq!(error_message(&missing.body), "Chat 兼容桥中没有 Provider ghost。");
    assert_eq!(
        missing.body.pointer(&["error", "type"]).and_then(|t| t.as_str()),
        Some("codex_xray_chat_bridge_error")
    );
    let blank = chat_provider("none", None, "  ", 0);
    let unnamed = models_reply("deepseek", Some(&blank));
    assert_eq!(unnamed.status, 422);
    assert_eq!(error_message(&unnamed.body), "Chat Provider deepseek 没有配置模型 ID。");
    let small = chat_provider("none", None, "deepseek-chat", 4_096);
    let listed = models_reply("deepseek", Some(&small));
    assert_eq!(listed.status, 200);
    let model = &listed.body.get("models").and_then(|m| m.as_array()).expect("models")[0];
    assert_eq!(model.str_at("slug"), Some("deepseek-chat"));
    assert_eq!(model.get("context_window").and_then(|c| c.as_u64()), Some(8_192));
    let large = bridge_model_info(&chat_provider("none", None, "m", 200_000));
    assert_eq!(large.get("max_context_window").and_then(|c| c.as_u64()), Some(200_000));
    assert_eq!(large.get("supported_reasoning_levels").and_then(|l| l.as_array()).map(|l| l.len()), Some(3));
}

#[test]
fn forwards_the_credential_each_mode_allows() {
    let none = chat_provider("none", None, "m", 0);
    assert_eq!(bridge_credential("p", &none, Some("Bearer abc"), None), Ok(None));
    let env = chat_provider("environment", Some("DEEPSEEK_API_KEY"), "m", 0);
    assert_eq!(bridge_credential("p", &env, Some("Bearer sk-1"), Some("sk-1")), Ok(Some("sk-1".to_string())));
    assert_eq!(
        bridge_credential("p", &env, Some("Bearer other"), Some("sk-1")),
        Err("本地兼容桥没有收到与 DEEPSEEK_API_KEY 匹配的认证信息。".to_string())
    );
    assert_eq!(bridge_credential("p", &env, Some("Bearer abc"), Some("  ")), Ok(Some("abc".to_string())));
    assert_eq!(bridge_credential("p", &env, Some("Basic abc"), None), Ok(None));
    let odd = chat_provider("vault", None, "m", 0);
    assert_eq!(
        bridge_credential("p", &odd, None, None),
        Err("Chat 兼容桥不支持凭据方式 vault。".to_string())
    );
    let keychain = chat_provider("keychain", None, "m", 0);
    assert_eq!(
        authorize_with(&keychain, Some("Bearer sk-2"), None, Ok("sk-2".to_string())),
        Ok(Some("sk-2".to_string()))
    );
    assert_eq!(
        authorize_with(&keychain, Some("Bearer sk-3"), None, Ok("sk-2".to_string())),
        Err("本地兼容桥认证失败，请重新保存这个 Provider 的 API Key。".to_string())
    );
    assert_eq!(
        authorize_with(&keychain, None, None, Err("locked".to_string())),
        Err("locked".to_string())
    );
}

#[test]
fn plans_the_upstream_request() {
    let request = parse(r#"{"model": "deepseek-chat", "input": "hi"}"#);
    let missing = plan_upstream("ghost", None, &request).expect_err("no provider");
    assert_eq!(missing.status, 404);
    let provider = chat_provider("none", None, "deepseek-chat", 0);
    let bad = plan_upstream("deepseek", Some(&provider), &parse(r#"{"input": "hi"}"#)).expect_err("no model");
    assert_eq!(bad.status, 400);
    assert_eq!(error_message(&bad.body), "Responses 请求缺少 model。");
    let (endpoint, body) = plan_upstream("deepseek", Some(&provider), &request).expect("plan");
    assert_eq!(endpoint, "https://api.example.com/v1/chat/completions");
    assert_eq!(body.get("stream").and_then(|s| s.as_bool()), Some(true));
    assert_eq!(stream_model(&request), "deepseek-chat");
    assert_eq!(stream_model(&parse("{}")), "chat-model");
    assert!(is_event_stream("Text/Event-Stream; charset=utf-8"));
    assert!(!is_event_stream("application/json"));
}

#[test]
fn ends_the_reply_on_done_or_unreadable_events() {
    let mut stream = ResponseStream::new("m".to_string(), 1, 1);
    let (frames, ended) = stream.upstream_data("{}", Ok(parse(r#"{"choices": [{"delta": {"content": "x"}}]}"#)));
    assert!(!ended);
    assert_eq!(frames.len(), 3);
    let (frames, ended) = stream.upstream_data(" [DONE] ", Err("not json".to_string()));
    assert!(ended);
    assert!(frames.last().expect("completed").starts_with("event: response.completed\n"));
    let mut broken = ResponseStream::new("m".to_string(), 1, 2);
    let (frames, ended) = broken.upstream_data("{oops", Err("expected value".to_string()));
    assert!(ended);
    assert!(frames[0].contains("Chat 流事件无法解析：expected value"));
    let mut cut = ResponseStream::new("m".to_string(), 1, 3);
    let frames = cut.upstream_broken("connection reset");
    assert!(frames[0].contains("Chat 流已中断：connection reset"));
}

#[test]
fn names_upstream_failures_in_error_replies() {
    let unreachable = unreachable_reply("connection refused");
    assert_eq!(unreachable.status, 502);
    assert_eq!(error_message(&unreachable.body), "Chat 上游连接失败：connection refused");
    let unreadable = unreadable_reply("expected value at line 1");
    assert_eq!(unreadable.status, 502);
    assert_eq!(error_message(&unreadable.body), "Chat 上游没有返回有效 JSON：expected value at line 1");
    let unauthorized = unauthorized_reply("本地兼容桥认证失败，请重新保存这个 Provider 的 API Key。");
    assert_eq!(unauthorized.status, 401);
    assert_eq!(
        unauthorized.body.to_text(),
        r#"{"error":{"message":"本地兼容桥认证失败，请重新保存这个 Provider 的 API Key。","type":"codex_xray_chat_bridge_error"}}"#
    );
}
