use codex_xray::desktop::{apply_patches, is_incremental_state_change, ordered_turns, pending_request, thread_view, DesktopTurnOutcome};
use codex_xray::json::{JsonNumber, JsonValue};
use codex_xray::usage::{replayed_prefix_len, CostUsageEvent, IndexedFile};

fn to_json(value: &serde_json::Value) -> JsonValue {
    match value {
        serde_json::Value::Null => JsonValue::Null,
        serde_json::Value::Bool(b) => JsonValue::Bool(*b),
        serde_json::Value::Number(n) => {
            if let Some(u) = n.as_u64() {
                JsonValue::Number(JsonNumber::Unsigned(u))
            } else if let Some(i) = n.as_i64() {
                JsonValue::Number(JsonNumber::Negative(i))
            } else {
                JsonValue::Number(JsonNumber::Decimal(n.to_string()))
            }
        }
        serde_json::Value::String(s) => JsonValue::String(s.clone()),
        serde_json::Value::Array(items) => JsonValue::Array(items.iter().map(to_json).collect()),
        serde_json::Value::Object(map) => JsonValue::Object(
            map.iter().map(|(k, v)| (k.clone(), to_json(v))).collect(),
        ),
    }
}

fn parse(text: &str) -> JsonValue {
    to_json(&serde_json::from_str::<serde_json::Value>(text).unwrap())
}

fn event(timestamp_ms: i64, input_tokens: u64) -> CostUsageEvent {
    CostUsageEvent {
        timestamp_ms,
        date: "2026-07-26".to_string(),
        turn_id: "turn-1".to_string(),
        model: "gpt-5.4".to_string(),
        input_tokens,
        cached_input_tokens: 0,
        cache_write_input_tokens: 0,
        output_tokens: 0,
        total_tokens: input_tokens,
    }
}

fn file(session_id: &str, parent_id: Option<&str>, forked_at_ms: Option<i64>, events: Vec<CostUsageEvent>) -> IndexedFile {
    IndexedFile {
        length: 0,
        modified_ms: 0,
        malformed_lines: 0,
        session_id: Some(session_id.to_string()),
        parent_id: parent_id.map(str::to_string),
        forked_at_ms,
        cwd: None,
        started_at_ms: None,
        updated_at_ms: None,
        turns: Vec::new(),
        project_metadata_indexed: false,
        events,
    }
}

#[test]
fn skips_parent_usage_replayed_into_forked_session() {
    let parent = file("parent", None, None, vec![event(1_000, 100), event(2_000, 200)]);
    let child = file(
        "child",
        Some("parent"),
        Some(2_500),
        vec![event(3_000, 100), event(3_001, 200), event(4_000, 50)],
    );
    assert_eq!(replayed_prefix_len(&child, Some(&parent)), 2);
}

#[test]
fn skips_rewritten_second_when_parent_log_is_missing() {
    let child = file(
        "child",
        Some("missing"),
        Some(2_500),
        vec![event(3_000, 100), event(3_050, 200), event(4_000, 50)],
    );
    assert_eq!(replayed_prefix_len(&child, None), 2);
}

#[test]
fn accepts_desktop_patch_state_names_from_old_and_new_clients() {
    assert!(is_incremental_state_change("patch"));
    assert!(is_incremental_state_change("patches"));
    assert!(!is_incremental_state_change("snapshot"));
}

#[test]
fn applies_object_and_array_patches() {
    let value = parse(r#"{ "items": ["a", "c"], "status": "running" }"#);
    let patches = vec![
        parse(r#"{ "op": "add", "path": ["items", 1], "value": "b" }"#),
        parse(r#"{ "op": "replace", "path": ["status"], "value": "completed" }"#),
        parse(r#"{ "op": "remove", "path": ["items", 0] }"#),
    ];
    let (value, error) = apply_patches(value, &patches);
    assert!(error.is_none());
    assert!(value.same(&parse(r#"{ "items": ["b", "c"], "status": "completed" }"#)));
}

#[test]
fn derives_active_turn_preview_and_completion() {
    let state = parse(
        r#"{
            "turns": [{
                "turnId": "turn-1",
                "status": "inProgress",
                "items": [{ "type": "agentMessage", "phase": "commentary", "text": "正在检查" }]
            }],
            "requests": {}
        }"#,
    );
    let view = thread_view(&state, Some("turn-1"));
    assert_eq!(view.active_turn_id.as_deref(), Some("turn-1"));
    assert_eq!(view.agent_preview.as_deref(), Some("正在检查"));
    assert!(view.outcome.is_none());

    let completed = parse(
        r#"{
            "turns": [{
                "turnId": "turn-1",
                "status": "completed",
                "items": [{ "type": "agentMessage", "phase": "final_answer", "text": "处理完成" }]
            }]
        }"#,
    );
    assert!(matches!(
        thread_view(&completed, Some("turn-1")).outcome,
        Some(DesktopTurnOutcome::Completed(ref text)) if text == "处理完成"
    ));
}

#[test]
fn derives_pending_desktop_approval() {
    let state = parse(
        r#"{
            "requests": {
                "request-1": {
                    "method": "item/commandExecution/requestApproval",
                    "params": { "command": "cargo test" }
                }
            }
        }"#,
    );
    let request = pending_request(&state).unwrap();
    assert!(matches!(request.request_id, JsonValue::String(ref id) if id == "request-1"));
    assert!(request.method.contains("commandExecution"));
    assert_eq!(request.params.str_at("command"), Some("cargo test"));
}

#[test]
fn reads_turns_from_history_islands_and_ignores_non_approval_requests() {
    let state = parse(
        r#"{
            "turns": [],
            "turnHistory": { "history": {
                "entitiesByKey": {
                    "a": { "turnId": "t-1", "status": "completed", "items": [] },
                    "b": { "id": "t-2", "status": "failed", "error": { "message": "boom" } },
                    "c": { "note": "not a turn" }
                },
                "islands": [
                    { "entries": [ { "value": "b" }, { "value": { "key": "a" } }, { "value": "b" } ] },
                    { "entries": "nope" }
                ]
            } },
            "requests": [ { "type": "userInput", "id": 7 } ]
        }"#,
    );
    let turns = ordered_turns(&state);
    let ids: Vec<Option<&str>> = turns.iter().map(|t| t.str_at("status")).collect();
    assert_eq!(ids, vec![Some("failed"), Some("completed")]);
    let view = thread_view(&state, Some("t-2"));
    assert!(view.active_turn_id.is_none());
    assert!(view.pending_request.is_none());
    assert!(matches!(view.outcome, Some(DesktopTurnOutcome::Failed(ref e)) if e == "boom"));
    let permission = parse(r#"{ "requests": [ { "type": "PermissionRequest", "requestId": "r9" } ] }"#);
    let request = pending_request(&permission).expect("a permission request");
    assert!(matches!(request.request_id, JsonValue::String(ref id) if id == "r9"));
    assert_eq!(request.params.str_at("type"), Some("PermissionRequest"));
}
