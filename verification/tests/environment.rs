use codex_xray::environment::{
    build_environment_snapshot, mcp_servers, safe_command_target, safe_url_target, CodexHomeState,
    EnvironmentPath, EnvironmentRuntime,
};
use codex_xray::json::{JsonNumber, JsonValue};
use codex_xray::provider::{ProviderDefinition, ProviderSnapshot};
use codex_xray::settings::build_settings_snapshot;
use codex_xray::storage::StorageHealth;

fn to_json(value: &serde_json::Value) -> JsonValue {
    match value {
        serde_json::Value::Null => JsonValue::Null,
        serde_json::Value::Bool(b) => JsonValue::Bool(*b),
        serde_json::Value::Number(n) => {
            if let Some(u) = n.as_u64() {
                JsonValue::Number(JsonNumber::Unsigned(u))
            } else if let Some(i) = n.as_i64() {
                JsonValue::Number(JsonNumber::Negative(i))
            } else {
                JsonValue::Number(JsonNumber::Decimal(n.to_string()))
            }
        }
        serde_json::Value::String(s) => JsonValue::String(s.clone()),
        serde_json::Value::Array(items) => JsonValue::Array(items.iter().map(to_json).collect()),
        serde_json::Value::Object(map) => JsonValue::Object(
            map.iter().map(|(k, v)| (k.clone(), to_json(v))).collect(),
        ),
    }
}

fn parse(text: &str) -> JsonValue {
    to_json(&serde_json::from_str::<serde_json::Value>(text).unwrap())
}

fn storage(integrity_ok: bool, foreign_key_violations: u64, malformed_session_lines: u64) -> StorageHealth {
    StorageHealth {
        database_bytes: 4096,
        wal_bytes: 0,
        journal_mode: "wal".to_string(),
        schema_version: 2,
        integrity_ok,
        integrity_message: if integrity_ok { "ok".to_string() } else { "page 3 broken".to_string() },
        foreign_key_violations,
        malformed_session_lines,
        usage_sessions: 0,
        usage_turns: 0,
        token_events: 0,
        trace_sessions: 0,
        trace_turns: 0,
        trace_tool_events: 0,
    }
}

fn provider(id: &str, compatibility: &str, credential_available: bool) -> ProviderDefinition {
    ProviderDefinition {
        id: id.to_string(),
        name: format!("{id} provider"),
        base_url: Some("https://api.example.com/v1".to_string()),
        env_key: Some("EXAMPLE_KEY".to_string()),
        env_available: credential_available,
        credential_source: "environment".to_string(),
        credential_available,
        auth_command: None,
        auth_args: Vec::new(),
        wire_api: "responses".to_string(),
        protocol: "responses".to_string(),
        context_window: None,
        builtin: false,
        compatibility: compatibility.to_string(),
    }
}

fn providers(active: &str, list: Vec<ProviderDefinition>) -> ProviderSnapshot {
    ProviderSnapshot {
        fetched_at: String::new(),
        config_path: "/home/u/.codex/config.toml".to_string(),
        version: None,
        active_provider: active.to_string(),
        active_model: Some("gpt-5.4".to_string()),
        models: Vec::new(),
        providers: list,
        restore_available: false,
        warnings: Vec::new(),
    }
}

fn path(label: &str, exists: bool) -> EnvironmentPath {
    EnvironmentPath { label: label.to_string(), path: format!("/x/{label}"), exists, item_count: None }
}

#[test]
fn shows_only_scheme_host_and_port_of_server_urls() {
    assert_eq!(safe_url_target("https://mcp.example.com:8443/path?token=secret"), "https://mcp.example.com:8443");
    assert_eq!(safe_url_target("https://mcp.example.com/sse"), "https://mcp.example.com");
    let long = "x".repeat(130);
    assert_eq!(safe_url_target(&long), "x".repeat(120));
    assert_eq!(safe_command_target("/usr/local/bin/node"), "node");
}

#[test]
fn lists_enabled_servers_first_then_by_name() {
    let raw = parse(
        r#"{"config":{"mcp_servers":{
            "beta":{"command":"/opt/bin/beta-server"},
            "Alpha":{"url":"http://localhost:9000/mcp","enabled":false},
            "gamma":{"url":"  "},
            "alpha2":{"url":"https://a.example.com/x"}
        }}}"#,
    );
    let servers = mcp_servers(&raw);
    let names: Vec<&str> = servers.iter().map(|s| s.name.as_str()).collect();
    assert_eq!(names, vec!["alpha2", "beta", "gamma", "Alpha"]);
    assert_eq!(servers[0].transport, "HTTP");
    assert_eq!(servers[0].target.as_deref(), Some("https://a.example.com"));
    assert_eq!(servers[1].transport, "STDIO");
    assert_eq!(servers[1].target.as_deref(), Some("beta-server"));
    assert_eq!(servers[2].transport, "Unknown");
    assert_eq!(servers[2].target, None);
    assert!(!servers[3].enabled);
    assert!(mcp_servers(&parse(r#"{"config":{}}"#)).is_empty());
}

#[test]
fn warns_about_missing_history_unsafe_settings_and_storage_problems() {
    let raw = parse(
        r#"{"config":{"history":{"persistence":"none"},"sandbox_mode":"danger-full-access","approval_policy":"never"}}"#,
    );
    let settings = build_settings_snapshot(&raw, String::new(), "/home/u/.codex/config.toml".to_string(), false)
        .expect("settings");
    let snapshot = build_environment_snapshot(
        &raw,
        &providers("missing", vec![provider("openai", "responses", true)]),
        &settings,
        EnvironmentRuntime {
            codex_version: "0.50.0".to_string(),
            codex_binary: "/usr/bin/codex".to_string(),
            xray_data_path: "/data".to_string(),
            xray_sqlite_path: "/data/x.sqlite".to_string(),
            storage: storage(false, 2, 5),
        },
        CodexHomeState {
            codex_home: "/home/u/.codex".to_string(),
            sessions_path: "/home/u/.codex/sessions".to_string(),
            home_is_dir: true,
            sessions_is_dir: false,
            extension_paths: vec![path("Codex skills", false), path("Agent skills", false), path("Plugin cache", true)],
        },
        "2026-07-26T00:00:00Z".to_string(),
    );
    assert_eq!(snapshot.provider.name, "missing");
    assert_eq!(snapshot.provider.compatibility, "unknown");
    let labels: Vec<&str> = snapshot.extension_paths.iter().map(|p| p.label.as_str()).collect();
    assert_eq!(labels, vec!["Codex skills", "Plugin cache"]);
    assert_eq!(
        snapshot.warnings,
        vec![
            "The sessions directory is not present; Usage and Execution will have no local history.".to_string(),
            "The active provider is not confirmed as Responses API compatible.".to_string(),
            "The active provider credential is not available.".to_string(),
            "Session history persistence is disabled; historical analysis will be incomplete.".to_string(),
            "Codex currently has full filesystem access with approvals disabled.".to_string(),
            "The analysis database quick check failed: page 3 broken".to_string(),
            "The analysis database has 2 foreign-key violations.".to_string(),
            "5 local session lines could not be parsed and were skipped.".to_string(),
        ]
    );
}

#[test]
fn a_healthy_environment_has_no_warnings() {
    let raw = parse(r#"{"config":{}}"#);
    let settings = build_settings_snapshot(&raw, String::new(), "/c".to_string(), false).expect("settings");
    let snapshot = build_environment_snapshot(
        &raw,
        &providers("openai", vec![provider("openai", "responses", true)]),
        &settings,
        EnvironmentRuntime {
            codex_version: "0.50.0".to_string(),
            codex_binary: "/usr/bin/codex".to_string(),
            xray_data_path: "/data".to_string(),
            xray_sqlite_path: "/data/x.sqlite".to_string(),
            storage: storage(true, 0, 0),
        },
        CodexHomeState {
            codex_home: "/h".to_string(),
            sessions_path: "/h/sessions".to_string(),
            home_is_dir: true,
            sessions_is_dir: true,
            extension_paths: Vec::new(),
        },
        "now".to_string(),
    );
    assert_eq!(snapshot.provider.name, "openai provider");
    assert_eq!(snapshot.provider.endpoint.as_deref(), Some("https://api.example.com/v1"));
    assert!(snapshot.warnings.is_empty(), "{:?}", snapshot.warnings);
}
