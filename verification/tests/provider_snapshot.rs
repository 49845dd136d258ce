use codex_xray::chat_bridge::{provider_base_url, ChatBridgeProvider, ProviderTable};
use codex_xray::json::{JsonNumber, JsonValue};
use codex_xray::provider_snapshot::{
    build_provider_snapshot, definition_from_value, enrich_provider_snapshot_with_bridge, provider_snapshot_from,
};

fn to_json(value: &serde_json::Value) -> JsonValue {
    match value {
        serde_json::Value::Null => JsonValue::Null,
        serde_json::Value::Bool(b) => JsonValue::Bool(*b),
        serde_json::Value::Number(n) => {
            if let Some(u) = n.as_u64() {
                JsonValue::Number(JsonNumber::Unsigned(u))
            } else if let Some(i) = n.as_i64() {
                JsonValue::Number(JsonNumber::Negative(i))
            } else {
                JsonValue::Number(JsonNumber::Decimal(n.to_string()))
            }
        }
        serde_json::Value::String(s) => JsonValue::String(s.clone()),
        serde_json::Value::Array(items) => JsonValue::Array(items.iter().map(to_json).collect()),
        serde_json::Value::Object(map) => JsonValue::Object(
            map.iter().map(|(k, v)| (k.clone(), to_json(v))).collect(),
        ),
    }
}

fn parse(text: &str) -> JsonValue {
    to_json(&serde_json::from_str::<serde_json::Value>(text).unwrap())
}

const CONFIG: &str = r#"{
    "config": {
        "model_provider": "deepseek",
        "model": " deepseek-chat ",
        "model_providers": {
            "deepseek": {"name": "DeepSeek", "base_url": "https://api.deepseek.com/v1", "env_key": "DEEPSEEK_API_KEY"},
            "ollama": {"base_url": "http://gpu-box:11434/v1"},
            "zeta": {"auth": {"command": "/Applications/X-Ray", "args": ["--codex-xray-credential", "zeta"]}, "wire_api": "chat"}
        }
    },
    "layers": [
        {"name": {"type": "system"}},
        {"name": {"type": "user", "profile": "work", "file": "/tmp/work.toml"}},
        {"name": {"type": "user", "file": "/Users/me/.codex/config.toml"}, "version": "v7"}
    ]
}"#;

#[test]
fn lists_the_active_provider_first_then_by_name() {
    let env_keys = vec!["DEEPSEEK_API_KEY".to_string()];
    let snapshot = provider_snapshot_from(&parse(CONFIG), &env_keys, &Vec::new(), "/default/config.toml", "now".to_string(), true)
        .expect("snapshot");
    let ids: Vec<&str> = snapshot.providers.iter().map(|p| p.id.as_str()).collect();
    assert_eq!(ids, vec!["deepseek", "amazon-bedrock", "lmstudio", "ollama", "openai", "zeta"]);
    assert_eq!(snapshot.active_model.as_deref(), Some("deepseek-chat"));
    assert_eq!(snapshot.config_path, "/Users/me/.codex/config.toml");
    assert_eq!(snapshot.version.as_deref(), Some("v7"));
    assert!(snapshot.restore_available);
    let deepseek = &snapshot.providers[0];
    assert_eq!(deepseek.credential_source, "environment");
    assert!(deepseek.credential_available);
    assert_eq!(deepseek.compatibility, "chat_only");
    let ollama = &snapshot.providers[3];
    assert!(ollama.builtin);
    assert_eq!(ollama.name, "ollama");
    assert_eq!(ollama.base_url.as_deref(), Some("http://gpu-box:11434/v1"));
    let openai = &snapshot.providers[4];
    assert_eq!(openai.credential_source, "builtin");
    let zeta = &snapshot.providers[5];
    assert_eq!(zeta.credential_source, "keychain");
    assert!(!zeta.credential_available);
    assert_eq!(zeta.compatibility, "unsupported_wire_api");
    assert_eq!(
        snapshot.warnings,
        vec!["当前地址只公布了 Chat Completions；Codex 自定义 Provider 需要 Responses API。".to_string()]
    );
}

#[test]
fn warns_about_missing_credentials_and_definitions() {
    let config = parse(r#"{"config": {"model_provider": "zeta", "model_providers": {
        "zeta": {"auth": {"command": "/x", "args": ["--codex-xray-credential", "zeta"]}}
    }}}"#);
    let missing = provider_snapshot_from(&config, &Vec::new(), &Vec::new(), "/d", "now".to_string(), false).expect("snapshot");
    assert_eq!(missing.config_path, "/d");
    assert_eq!(missing.warnings, vec!["当前 Provider 的系统钥匙串凭据不可用。".to_string()]);
    let stored = provider_snapshot_from(&config, &Vec::new(), &vec!["zeta".to_string()], "/d", "now".to_string(), false)
        .expect("snapshot");
    assert!(stored.warnings.is_empty());
    let unknown = provider_snapshot_from(&parse(r#"{"config": {"model_provider": "ghost"}}"#), &Vec::new(), &Vec::new(), "/d", "now".to_string(), false)
        .expect("snapshot");
    assert_eq!(unknown.warnings, vec!["当前 Provider ghost 没有可读取的定义。".to_string()]);
    assert_eq!(unknown.providers.len(), 4);
    let env = parse(r#"{"env_key": "MISSING_KEY"}"#);
    let definition = definition_from_value("custom", &env, &Vec::new(), false);
    assert_eq!(definition.credential_source, "environment");
    assert!(!definition.credential_available);
    assert_eq!(
        build_provider_snapshot(&parse("{}"), &Vec::new(), "/d", "now".to_string(), false).map(|_| ()),
        Err("config/read 缺少 config 字段".to_string())
    );
}

#[test]
fn shows_bridged_providers_with_their_upstream() {
    let config = parse(&format!(
        r#"{{"config": {{"model_provider": "deepseek", "model_providers": {{
            "deepseek": {{"name": "DeepSeek", "base_url": "{}/", "env_key": "K"}}
        }}}}}}"#,
        provider_base_url("deepseek")
    ));
    let mut snapshot =
        provider_snapshot_from(&config, &vec!["K".to_string()], &Vec::new(), "/d", "now".to_string(), false).expect("snapshot");
    let mut table = ProviderTable::new();
    table.persist_provider(
        "deepseek",
        ChatBridgeProvider {
            upstream_base_url: "https://api.deepseek.com/v1".to_string(),
            credential_mode: "environment".to_string(),
            env_key: Some("K".to_string()),
            model: "deepseek-chat".to_string(),
            context_window: 64_000,
        },
    );
    enrich_provider_snapshot_with_bridge(&mut snapshot, &table, false);
    let deepseek = &snapshot.providers[0];
    assert_eq!(deepseek.base_url.as_deref(), Some("https://api.deepseek.com/v1"));
    assert_eq!(deepseek.protocol, "chat_completions");
    assert_eq!(deepseek.context_window, Some(64_000));
    assert_eq!(deepseek.compatibility, "chat_bridge");
    assert_eq!(
        snapshot.warnings.last().map(String::as_str),
        Some("当前 Provider 使用 Chat 兼容桥，但本地桥没有运行；请保持 Codex X-Ray 打开。")
    );
}
