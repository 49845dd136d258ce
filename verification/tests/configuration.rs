use codex_xray::capture::{redact_sensitive, truncate_utf8};
use codex_xray::chat_bridge::{is_provider_bridge_url, provider_base_url};
use codex_xray::codex::{normalize_thread_status, parse_account, parse_usage};
use codex_xray::json::{JsonNumber, JsonValue};
use codex_xray::rate_limits::parse_rate_limits;
use codex_xray::provider::{
    build_apply_edits, delete_credential, deletion_result, probe_plan, save_credential,
    stored_key, validate_base_url, KeychainError, ProbeCredential, ProviderApplyRequest,
    CREDENTIAL_HELPER_ARG,
};
use codex_xray::settings::{
    build_settings_edits, build_settings_snapshot, copy_settings, validate_settings,
};

fn to_json(value: &serde_json::Value) -> JsonValue {
    match value {
        serde_json::Value::Null => JsonValue::Null,
        serde_json::Value::Bool(b) => JsonValue::Bool(*b),
        serde_json::Value::Number(n) => {
            if let Some(u) = n.as_u64() {
                JsonValue::Number(JsonNumber::Unsigned(u))
            } else if let Some(i) = n.as_i64() {
                JsonValue::Number(JsonNumber::Negative(i))
            } else {
                JsonValue::Number(JsonNumber::Decimal(n.to_string()))
            }
        }
        serde_json::Value::String(s) => JsonValue::String(s.clone()),
        serde_json::Value::Array(items) => JsonValue::Array(items.iter().map(to_json).collect()),
        serde_json::Value::Object(map) => JsonValue::Object(
            map.iter().map(|(k, v)| (k.clone(), to_json(v))).collect(),
        ),
    }
}

fn from_json(value: &JsonValue) -> serde_json::Value {
    match value {
        JsonValue::Null => serde_json::Value::Null,
        JsonValue::Bool(b) => serde_json::Value::Bool(*b),
        JsonValue::Number(JsonNumber::Unsigned(n)) => serde_json::Value::from(*n),
        JsonValue::Number(JsonNumber::Negative(n)) => serde_json::Value::from(*n),
        JsonValue::Number(JsonNumber::Decimal(text)) => serde_json::from_str(text).unwrap(),
        JsonValue::String(s) => serde_json::Value::String(s.clone()),
        JsonValue::Array(items) => serde_json::Value::Array(items.iter().map(from_json).collect()),
        JsonValue::Object(members) => serde_json::Value::Object(
            members.iter().map(|(k, v)| (k.clone(), from_json(v))).collect(),
        ),
    }
}

fn parse(text: &str) -> JsonValue {
    to_json(&serde_json::from_str::<serde_json::Value>(text).unwrap())
}

fn request(
    provider_id: &str,
    model: &str,
    name: &str,
    base_url: &str,
    env_key: Option<&str>,
    mode: &str,
    api_key: Option<&str>,
    protocol: &str,
) -> ProviderApplyRequest {
    ProviderApplyRequest {
        provider_id: provider_id.to_string(),
        model: model.to_string(),
        name: Some(name.to_string()),
        base_url: Some(base_url.to_string()),
        env_key: env_key.map(str::to_string),
        credential_mode: Some(mode.to_string()),
        api_key: api_key.map(str::to_string),
        protocol: protocol.to_string(),
        context_window: 128_000,
        expected_version: None,
    }
}

#[test]
fn bridge_url_is_stable_and_provider_scoped() {
    assert_eq!(provider_base_url("deepseek"), "http://127.0.0.1:32198/v1/chat/deepseek");
    assert!(is_provider_bridge_url("deepseek", "http://127.0.0.1:32198/v1/chat/deepseek/"));
    assert!(!is_provider_bridge_url("other", "http://127.0.0.1:32198/v1/chat/deepseek"));
}

#[test]
fn truncation_keeps_utf8_valid() {
    let (value, truncated) = truncate_utf8("中文协议记录", 5);
    assert!(truncated);
    assert!(value.starts_with('中'));
}

#[test]
fn redacts_credentials_without_hiding_token_usage() {
    let value = redact_sensitive(
        &parse(r#"{"api_key": "secret-value", "input_tokens": 42, "nested": {"Authorization": "Bearer secret"}}"#),
        None,
    );
    let value = from_json(&value);
    assert_eq!(value["api_key"], "<redacted>");
    assert_eq!(value["input_tokens"], 42);
    assert_eq!(value["nested"]["Authorization"], "<redacted>");
}

#[test]
fn accepts_native_domestic_responses_endpoints() {
    for base_url in [
        "https://dashscope.aliyuncs.com/compatible-mode/v1",
        "https://ark.cn-beijing.volces.com/api/v3",
        "https://api.minimaxi.com/v1",
        "https://api.stepfun.com/v1",
    ] {
        assert_eq!(validate_base_url(base_url).expect("Responses endpoint"), base_url);
    }
}

#[test]
fn rejects_glm_chat_completion_endpoint() {
    let request = request(
        "glm",
        "glm-5.2",
        "GLM",
        "https://open.bigmodel.cn/api/coding/paas/v4",
        Some("ZHIPUAI_API_KEY"),
        "environment",
        None,
        "responses",
    );
    let error = build_apply_edits(&request, &Ok("/app/codex-xray".to_string()), false)
        .expect_err("direct GLM should be rejected");
    assert!(error.contains("Responses API"));
}

#[test]
fn accepts_qianfan_responses_for_glm() {
    let request = request(
        "qianfan-glm",
        "glm-5",
        "Baidu Qianfan · GLM",
        "https://qianfan.baidubce.com/v2",
        Some("QIANFAN_API_KEY"),
        "environment",
        None,
        "responses",
    );
    let (edits, definition) = build_apply_edits(&request, &Ok("/app/codex-xray".to_string()), false)
        .expect("Qianfan exposes Responses API");
    assert_eq!(edits.len(), 3);
    assert_eq!(
        definition.and_then(|item| item.base_url),
        Some("https://qianfan.baidubce.com/v2".to_string())
    );
}

#[test]
fn builds_safe_responses_provider_edits() {
    let mut request = request(
        "glm-gateway",
        "glm-5.2",
        "GLM via Responses gateway",
        "https://gateway.example.com/v1",
        Some("ZHIPUAI_API_KEY"),
        "environment",
        None,
        "responses",
    );
    request.expected_version = Some("v1".to_string());
    let (edits, definition) =
        build_apply_edits(&request, &Ok("/app/codex-xray".to_string()), false).expect("valid provider");
    assert_eq!(edits.len(), 3);
    assert_eq!(
        definition.and_then(|item| item.base_url),
        Some("https://gateway.example.com/v1".to_string())
    );
    assert!(!edits.iter().any(|item| from_json(item).to_string().contains("secret")));
}

#[test]
fn writes_keychain_auth_without_serializing_api_key() {
    let request = request(
        "dashscope",
        "qwen3-coder-plus",
        "Alibaba Model Studio",
        "https://dashscope.aliyuncs.com/compatible-mode/v1",
        None,
        "keychain",
        Some("test-secret-value"),
        "responses",
    );
    let (edits, definition) = build_apply_edits(&request, &Ok("/app/codex-xray".to_string()), false)
        .expect("keychain provider");
    let serialized =
        serde_json::to_string(&edits.iter().map(from_json).collect::<Vec<_>>()).expect("serialize edits");
    assert!(!serialized.contains("test-secret-value"));
    assert!(serialized.contains(CREDENTIAL_HELPER_ARG));
    assert!(definition.is_some_and(|provider| provider.credential_source == "keychain"));
}

#[test]
fn routes_chat_completions_through_local_bridge() {
    let request = request(
        "deepseek-direct",
        "deepseek-chat",
        "DeepSeek Direct",
        "https://api.deepseek.com",
        None,
        "keychain",
        Some("test-secret-value"),
        "chat_completions",
    );
    let (edits, definition) = build_apply_edits(&request, &Ok("/app/codex-xray".to_string()), false)
        .expect("chat bridge provider");
    let serialized =
        serde_json::to_string(&edits.iter().map(from_json).collect::<Vec<_>>()).expect("serialize edits");
    assert!(serialized.contains("http://127.0.0.1:32198/v1/chat/deepseek-direct"));
    assert!(!serialized.contains("https://api.deepseek.com"));
    assert!(definition.is_some_and(|provider| provider.compatibility == "chat_bridge"));
}

fn default_settings() -> codex_xray::settings::CodexSettings {
    build_settings_snapshot(&parse(r#"{ "config": {} }"#), String::new(), "/missing".to_string(), false)
        .expect("settings")
        .settings
}

#[test]
fn builds_only_changed_setting_edits() {
    let before = default_settings();
    let mut after = copy_settings(&before);
    after.model_verbosity = Some("high".to_string());
    after.web_search = "live".to_string();
    let (edits, keys) = build_settings_edits(&before, &after).expect("valid edits");
    assert_eq!(edits.len(), 2);
    assert_eq!(keys, vec!["model_verbosity", "web_search"]);
}

#[test]
fn rejects_conflicting_reasoning_display_settings() {
    let mut settings = default_settings();
    settings.hide_agent_reasoning = true;
    settings.show_raw_agent_reasoning = true;
    assert!(validate_settings(&settings).is_err());
}

#[test]
fn null_value_clears_optional_override() {
    let before = build_settings_snapshot(
        &parse(r#"{ "config": { "model_verbosity": "high" } }"#),
        String::new(),
        "/missing".to_string(),
        false,
    )
    .expect("settings")
    .settings;
    let mut after = copy_settings(&before);
    after.model_verbosity = None;
    let (edits, _) = build_settings_edits(&before, &after).expect("clear edit");
    assert_eq!(from_json(&edits[0])["value"], serde_json::Value::Null);
}

#[test]
fn parses_usage_without_losing_large_token_counts() {
    let payload = parse(
        r#"{
            "summary": {
                "lifetimeTokens": 23918079313,
                "peakDailyTokens": 932096397,
                "longestRunningTurnSec": 35263,
                "currentStreakDays": 6,
                "longestStreakDays": 54
            },
            "dailyUsageBuckets": [
                { "startDate": "2026-07-25", "tokens": 6101106 }
            ]
        }"#,
    );
    let (summary, daily) = parse_usage(&payload).map_err(|_| ()).expect("valid usage");
    assert_eq!(summary.and_then(|value| value.lifetime_tokens), Some(23_918_079_313));
    assert_eq!(daily[0].tokens, 6_101_106);
}

#[test]
fn account_parser_never_keeps_email() {
    let payload = parse(
        r#"{
            "account": {
                "type": "chatgpt",
                "email": "private@example.com",
                "planType": "business"
            },
            "requiresOpenaiAuth": true
        }"#,
    );
    let account = parse_account(&payload)
        .map_err(|_| ())
        .expect("valid account")
        .expect("account exists");
    assert_eq!(account.account_type, "chatgpt");
    assert_eq!(account.plan_type.as_deref(), Some("business"));
}

#[test]
fn maps_official_thread_wait_states() {
    assert_eq!(
        normalize_thread_status(&parse(r#"{ "type": "active", "activeFlags": ["waitingOnApproval"] }"#))
            .as_deref(),
        Some("waiting_approval")
    );
    assert_eq!(
        normalize_thread_status(&parse(r#"{ "type": "active", "activeFlags": ["waitingOnUserInput"] }"#))
            .as_deref(),
        Some("waiting_input")
    );
    assert_eq!(normalize_thread_status(&parse(r#"{ "type": "idle" }"#)), None);
}

#[test]
fn probe_plan_aims_at_the_responses_endpoint_with_the_given_key() {
    let req = request("acme", " m1 ", "Acme", "https://api.acme.test/v1/", None, "none", Some(" sk-1 "), "responses");
    let plan = probe_plan(&req, &Ok("/bin/codex-xray".to_string()), false).unwrap();
    assert_eq!(plan.provider_id, "acme");
    assert_eq!(plan.model, "m1");
    assert!(!plan.chat);
    assert_eq!(plan.endpoint, "https://api.acme.test/v1/responses");
    assert!(matches!(plan.credential, ProbeCredential::Key(ref k) if k == "sk-1"));
}

#[test]
fn probe_plan_names_the_environment_variable_of_a_chat_provider() {
    let req = request(
        "deepseek",
        "deepseek-chat",
        "DeepSeek",
        "https://api.deepseek.com",
        Some("DEEPSEEK_API_KEY"),
        "environment",
        None,
        "chat_completions",
    );
    let plan = probe_plan(&req, &Ok("/bin/codex-xray".to_string()), true).unwrap();
    assert!(plan.chat);
    assert_eq!(plan.endpoint, "https://api.deepseek.com/chat/completions");
    assert!(matches!(plan.credential, ProbeCredential::Environment(ref k) if k == "DEEPSEEK_API_KEY"));
}

#[test]
fn probe_plan_refuses_builtin_providers_without_an_address() {
    let mut req = request("openai", "gpt-5", "OpenAI", "https://unused.test", None, "none", None, "responses");
    req.base_url = None;
    assert_eq!(
        probe_plan(&req, &Ok("/bin/codex-xray".to_string()), false).unwrap_err(),
        "OpenAI 的凭据由 Codex 内部管理，无法从外部发送探测请求。请改用 Codex 官方模型目录验证。"
    );
    let mut local = request("ollama", "llama3", "Ollama", "https://unused.test", None, "none", None, "responses");
    local.base_url = None;
    let plan = probe_plan(&local, &Ok("/bin/codex-xray".to_string()), false).unwrap();
    assert_eq!(plan.endpoint, "http://localhost:11434/v1/responses");
    assert!(matches!(plan.credential, ProbeCredential::Anonymous));
}

#[test]
fn keychain_answers_become_keys_or_messages() {
    assert_eq!(stored_key(Ok("  sk-9 ".to_string())).unwrap(), "sk-9");
    assert_eq!(stored_key(Ok("   ".to_string())).unwrap_err(), "API Key 不能为空。");
    assert_eq!(
        stored_key(Err(KeychainError::NoEntry)).unwrap_err(),
        "系统凭据存储中没有这个 Provider 的 API Key。"
    );
    assert_eq!(
        stored_key(Err(KeychainError::Failure("denied".to_string()))).unwrap_err(),
        "无法读取系统凭据存储：denied"
    );
    assert!(deletion_result(Ok(())).is_ok());
    assert!(deletion_result(Err(KeychainError::NoEntry)).is_ok());
    assert_eq!(
        deletion_result(Err(KeychainError::Failure("locked".to_string()))).unwrap_err(),
        "无法从系统凭据存储删除 API Key：locked"
    );
}

#[test]
fn credential_changes_check_their_input_before_the_keychain() {
    assert_eq!(save_credential("acme", "   ").unwrap_err(), "API Key 不能为空。");
    assert_eq!(
        delete_credential("bad id!").unwrap_err(),
        "Provider ID 只能包含字母、数字、连字符和下划线，且长度不超过 64。"
    );
}

fn percent(n: &JsonNumber) -> f64 {
    match n {
        JsonNumber::Unsigned(u) => *u as f64,
        JsonNumber::Negative(i) => *i as f64,
        JsonNumber::Decimal(text) => text.parse().unwrap(),
    }
}

#[test]
fn parses_multi_bucket_rate_limits_and_keeps_current_first() {
    let payload = parse(
        r#"{
            "rateLimits": {
                "limitId": "codex",
                "limitName": null,
                "primary": null,
                "secondary": null,
                "credits": {"hasCredits": true, "unlimited": true, "balance": null},
                "planType": "business"
            },
            "rateLimitsByLimitId": {
                "codex_spark": {
                    "limitId": "codex_spark",
                    "limitName": "Spark",
                    "primary": {"usedPercent": 18.5, "windowDurationMins": 300, "resetsAt": 1800000000},
                    "secondary": {"usedPercent": 42, "windowDurationMins": 10080, "resetsAt": 1800500000},
                    "credits": null
                },
                "codex": {
                    "limitId": "codex",
                    "limitName": null,
                    "primary": null,
                    "secondary": null,
                    "credits": {"hasCredits": true, "unlimited": true, "balance": null},
                    "planType": "business"
                }
            },
            "rateLimitResetCredits": null
        }"#,
    );
    let (current, limits) = parse_rate_limits(&payload).expect("valid limits");
    assert_eq!(current.as_deref(), Some("codex"));
    assert_eq!(limits.len(), 2);
    assert_eq!(limits[0].limit_id, "codex");
    assert!(limits[0].credits.as_ref().is_some_and(|value| value.unlimited));
    assert_eq!(limits[1].primary.as_ref().map(|value| percent(&value.used_percent)), Some(18.5));
}

#[test]
fn rate_limits_fall_back_to_the_main_bucket_and_refuse_bad_replies() {
    let (current, limits) = parse_rate_limits(&parse(r#"{"rateLimits": {"planType": "plus"}}"#)).unwrap();
    assert_eq!(current, None);
    assert_eq!(limits.len(), 1);
    assert_eq!(limits[0].limit_id, "codex");
    assert_eq!(limits[0].plan_type.as_deref(), Some("plus"));
    let (_, ordered) = parse_rate_limits(&parse(
        r#"{"rateLimits": {"limitId": "b"}, "rateLimitsByLimitId": {"c": {}, "a": {"limitId": "x"}}}"#,
    ))
    .unwrap();
    let ids: Vec<&str> = ordered.iter().map(|l| l.limit_id.as_str()).collect();
    assert_eq!(ids, vec!["b", "x", "c"]);
    assert!(parse_rate_limits(&parse(r#"{"rateLimitsByLimitId": {}}"#)).is_err());
    assert!(parse_rate_limits(&parse(r#"{"rateLimits": null}"#)).is_err());
    assert!(parse_rate_limits(&parse(r#"{"rateLimits": {"primary": {"windowDurationMins": 5}}}"#)).is_err());
}
