use codex_xray::codex::ThreadMetadata;
use codex_xray::pricing::activate_pricing_config;
use codex_xray::project_report::{build_project_turn_usage, build_project_usage};
use codex_xray::usage::{CostUsageEvent, IndexedFile, IndexedTurn};

fn usage_event(timestamp_ms: i64, turn_id: &str, input_tokens: u64) -> CostUsageEvent {
    CostUsageEvent {
        timestamp_ms,
        date: "2026-07-26".to_string(),
        turn_id: turn_id.to_string(),
        model: "gpt-5.4".to_string(),
        input_tokens,
        cached_input_tokens: 0,
        cache_write_input_tokens: 0,
        output_tokens: 0,
        total_tokens: input_tokens,
    }
}

fn indexed(session_id: &str, cwd: Option<&str>, events: Vec<CostUsageEvent>) -> IndexedFile {
    IndexedFile {
        length: 0,
        modified_ms: 0,
        malformed_lines: 0,
        session_id: Some(session_id.to_string()),
        parent_id: None,
        forked_at_ms: None,
        cwd: cwd.map(str::to_string),
        started_at_ms: None,
        updated_at_ms: None,
        turns: Vec::new(),
        project_metadata_indexed: true,
        events,
    }
}

#[test]
fn builds_project_conversation_and_turn_rows_from_the_cost_index() {
    let pricing = activate_pricing_config(None, "now").expect("no file");
    let mut file = indexed("session-1", Some("/tmp/demo"), vec![usage_event(1_500, "turn-1", 100)]);
    file.updated_at_ms = Some(2_000);
    file.turns = vec![(
        "turn-1".to_string(),
        IndexedTurn { started_at_ms: Some(1_000), updated_at_ms: Some(2_000) },
    )];
    let metadata = vec![ThreadMetadata {
        id: "session-1".to_string(),
        name: Some("Inspect the local index".to_string()),
        cwd: "/tmp/demo".to_string(),
        status: Some("idle".to_string()),
        path: Some("/tmp/session-1.jsonl".to_string()),
        created_at: 1,
        updated_at: 2,
        parent_thread_id: None,
    }];
    let files = vec![file];
    let paths = vec!["/tmp/session-1.jsonl".to_string()];
    let snapshot = build_project_usage(&files, &paths, &metadata, &Vec::new(), &pricing, "2026-07-26");
    assert_eq!(snapshot.projects.len(), 1);
    assert_eq!(snapshot.sessions, 1);
    assert_eq!(snapshot.turns, 1);
    assert_eq!(snapshot.usage.total_tokens, 100);
    assert_eq!(snapshot.projects[0].name, "demo");
    assert_eq!(
        snapshot.projects[0].conversations[0].title.as_deref(),
        Some("Inspect the local index")
    );
    assert_eq!(snapshot.projects[0].conversations[0].turn_rows[0].id, "turn-1");
}

#[test]
fn files_sessions_by_resolved_project_counting_each_call_once() {
    let pricing = activate_pricing_config(None, "now").expect("no file");
    let files = vec![
        indexed("alpha-session", Some("/work/a"), vec![usage_event(1_000, "t1", 100), usage_event(5_000, "t2", 50)]),
        indexed("beta-session", Some("/link/b"), vec![usage_event(2_000, "t1", 300)]),
        indexed("gamma-session", None, vec![usage_event(1_000, "t1", 100)]),
        indexed("delta-session", None, vec![usage_event(3_000, "t1", 7)]),
    ];
    let paths: Vec<String> = (1..=4).map(|k| format!("/logs/{k}.jsonl")).collect();
    let canonical = vec![("/link/b".to_string(), "/work/b".to_string())];
    let snapshot = build_project_usage(&files, &paths, &Vec::new(), &canonical, &pricing, "2026-07-26");
    assert_eq!(snapshot.files_indexed, 4);
    // The third log repeats a call of the first, which is counted once; the
    // third then has no tokens of its own and is left out.
    assert_eq!(snapshot.usage.total_tokens, 100 + 50 + 300 + 7);
    assert_eq!(snapshot.sessions, 3);
    assert_eq!(snapshot.turns, 4);
    assert_eq!(snapshot.turn_sessions_indexed, 3);
    let names: Vec<&str> = snapshot.projects.iter().map(|p| p.name.as_str()).collect();
    assert_eq!(names, vec!["a", "", "b"]);
    assert_eq!(snapshot.projects[2].path, "/work/b");
    assert_eq!(snapshot.projects[0].turns, 2);
    assert_eq!(snapshot.projects[0].conversations[0].turn_rows.len(), 2);
    assert_eq!(snapshot.projects[0].updated_at.as_deref(), Some("1970-01-01T00:00:05+00:00"));
}

#[test]
fn turn_detail_validates_the_session_id_and_counts_every_call() {
    let pricing = activate_pricing_config(None, "now").expect("no file");
    let files = vec![
        indexed("session-1", None, vec![usage_event(1_000, "t1", 10), usage_event(2_000, "t2", 20)]),
        indexed("session-2", None, vec![usage_event(1_000, "t1", 10)]),
    ];
    let bad = build_project_turn_usage(&files, "short", &pricing, "2026-07-26");
    assert_eq!(bad.expect_err("too short"), "Session ID 不合法");
    let bad = build_project_turn_usage(&files, "session/1", &pricing, "2026-07-26");
    assert_eq!(bad.expect_err("slash"), "Session ID 不合法");
    let missing = build_project_turn_usage(&files, "session-9", &pricing, "2026-07-26");
    assert_eq!(missing.expect_err("absent"), "没有找到 session-9 对应的本地 Session");
    let detail = build_project_turn_usage(&files, "session-2", &pricing, "2026-07-26").expect("found");
    assert_eq!(detail.session_id, "session-2");
    assert_eq!(detail.turns.len(), 1);
    assert_eq!(detail.turns[0].usage.total_tokens, 10);
    let detail = build_project_turn_usage(&files, "session-1", &pricing, "2026-07-26").expect("found");
    let ids: Vec<&str> = detail.turns.iter().map(|t| t.id.as_str()).collect();
    assert_eq!(ids, vec!["t1", "t2"]);
    assert_eq!(detail.turns[0].sequence, 1);
}
