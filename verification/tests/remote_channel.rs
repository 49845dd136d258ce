use codex_xray::json::{JsonNumber, JsonValue};
use codex_xray::remote::{
    approval_result, approval_summary, attach_error_message, codex_thread_deep_link,
    desktop_control_unavailable_message, format_elapsed, format_task_list, has_open_turn,
    is_direct_user_message, message_text, normalize_command_token, normalize_weixin_base_url,
    session_turn_outcome, split_text, unknown_command_reply, ProgressFeedback, RemoteTaskSummary,
    SessionTurnOutcome, WeixinMessage, WeixinMessageItem, WeixinTextItem,
    PROGRESS_FIRST_FEEDBACK_MS, PROGRESS_HEARTBEAT_INTERVAL_MS, PROGRESS_MIN_INTERVAL_MS,
};
use codex_xray::sanitize::sanitize_weixin_system_text;

fn to_json(value: &serde_json::Value) -> JsonValue {
    match value {
        serde_json::Value::Null => JsonValue::Null,
        serde_json::Value::Bool(b) => JsonValue::Bool(*b),
        serde_json::Value::Number(n) => {
            if let Some(u) = n.as_u64() {
                JsonValue::Number(JsonNumber::Unsigned(u))
            } else if let Some(i) = n.as_i64() {
                JsonValue::Number(JsonNumber::Negative(i))
            } else {
                JsonValue::Number(JsonNumber::Decimal(n.to_string()))
            }
        }
        serde_json::Value::String(s) => JsonValue::String(s.clone()),
        serde_json::Value::Array(items) => JsonValue::Array(items.iter().map(to_json).collect()),
        serde_json::Value::Object(map) => JsonValue::Object(
            map.iter().map(|(k, v)| (k.clone(), to_json(v))).collect(),
        ),
    }
}

fn parse(text: &str) -> JsonValue {
    to_json(&serde_json::from_str::<serde_json::Value>(text).unwrap())
}

fn lines(text: &str) -> Vec<Option<JsonValue>> {
    text.lines()
        .map(|line| serde_json::from_str::<serde_json::Value>(line).ok().map(|v| to_json(&v)))
        .collect()
}

fn task(id: &str, title: &str, cwd: &str) -> RemoteTaskSummary {
    RemoteTaskSummary {
        id: id.to_string(),
        title: title.to_string(),
        cwd: cwd.to_string(),
        status: "idle".to_string(),
        updated_at: 0,
        control_mode: "available".to_string(),
    }
}

#[test]
fn splits_unicode_without_breaking_characters() {
    assert_eq!(split_text("你好世界", 2), vec!["你好", "世界"]);
}

#[test]
fn progress_feedback_waits_deduplicates_and_sends_heartbeats() {
    let started_at: u64 = 5_000_000;
    let mut feedback = ProgressFeedback {
        started_at_ms: started_at,
        last_sent_at_ms: None,
        last_signature: String::new(),
    };
    assert!(!feedback.should_send(started_at + PROGRESS_FIRST_FEEDBACK_MS - 1, "正在检查"));
    let first = started_at + PROGRESS_FIRST_FEEDBACK_MS;
    assert!(feedback.should_send(first, "正在检查"));
    feedback.mark_sent(first, "正在检查".to_string());
    assert!(!feedback.should_send(first + PROGRESS_MIN_INTERVAL_MS, "正在检查"));
    assert!(feedback.should_send(first + PROGRESS_MIN_INTERVAL_MS, "正在运行测试"));
    feedback.mark_sent(first + PROGRESS_MIN_INTERVAL_MS, "正在运行测试".to_string());
    assert!(feedback.should_send(
        first + PROGRESS_MIN_INTERVAL_MS + PROGRESS_HEARTBEAT_INTERVAL_MS,
        "正在运行测试"
    ));
}

#[test]
fn formats_short_and_long_progress_elapsed_time() {
    assert_eq!(format_elapsed(12), "12 秒");
    assert_eq!(format_elapsed(60), "1 分钟");
    assert_eq!(format_elapsed(82), "1 分 22 秒");
}

#[test]
fn formats_new_and_legacy_approval_results() {
    let accepted = approval_result("item/commandExecution/requestApproval", true);
    assert!(accepted.same(&parse(r#"{ "decision": "accept" }"#)));
    let denied = approval_result("applyPatchApproval", false);
    assert!(denied.same(&parse(
        r#"{ "decision": { "denied": { "rejection": "用户从微信拒绝了该操作。" } } }"#
    )));
}

#[test]
fn extracts_text_and_voice_messages() {
    let text = WeixinMessage {
        seq: None,
        message_id: None,
        from_user_id: None,
        client_id: None,
        group_id: None,
        message_type: None,
        item_list: Some(vec![WeixinMessageItem {
            item_type: Some(1),
            text_item: Some(WeixinTextItem { text: Some("/tasks".to_string()) }),
            voice_item: None,
        }]),
        context_token: None,
    };
    assert_eq!(message_text(&text).as_deref(), Some("/tasks"));
    let voice = WeixinMessage {
        seq: None,
        message_id: None,
        from_user_id: None,
        client_id: None,
        group_id: None,
        message_type: None,
        item_list: Some(vec![WeixinMessageItem {
            item_type: Some(3),
            text_item: None,
            voice_item: Some(WeixinTextItem { text: Some("查看状态".to_string()) }),
        }]),
        context_token: None,
    };
    assert_eq!(message_text(&voice).as_deref(), Some("查看状态"));
}

fn message(message_type: Option<u32>, group_id: &str, from: Option<&str>) -> WeixinMessage {
    WeixinMessage {
        seq: None,
        message_id: None,
        from_user_id: from.map(str::to_string),
        client_id: None,
        group_id: Some(group_id.to_string()),
        message_type,
        item_list: None,
        context_token: None,
    }
}

#[test]
fn accepts_direct_messages_with_an_empty_group_id() {
    assert!(is_direct_user_message(&message(Some(1), "", Some("owner@im.wechat"))));
    assert!(!is_direct_user_message(&message(Some(1), "group-1", Some("owner@im.wechat"))));
    assert!(!is_direct_user_message(&message(Some(2), "", None)));
}

#[test]
fn normalizes_full_width_slashes_and_suggests_typo_fixes() {
    assert_eq!(normalize_command_token("／STATUS"), "/status");
    assert!(unknown_command_reply("/stats").contains("/status"));
    assert!(unknown_command_reply("/something").contains("不要以 / 开头"));
}

#[test]
fn active_writer_conflicts_never_offer_or_create_a_fork() {
    let message = attach_error_message(
        "thread/resume failed: thread abc already has an active writer",
        &[],
    );
    assert!(message.contains("IPC"));
    assert!(message.contains("没有创建副本或新会话"));
    assert!(!message.contains("/new"));
}

#[test]
fn desktop_connection_errors_are_reported_without_guessing_a_version_problem() {
    let message = desktop_control_unavailable_message(Some("读取 IPC 内容失败: closed"), &[]);
    assert!(message.contains("读取 IPC 内容失败: closed"));
    assert!(message.contains("重试自动连接"));
    assert!(message.contains("没有创建副本或新会话"));
    assert!(!message.contains("版本不兼容"));
}

#[test]
fn codex_thread_deep_links_only_accept_safe_task_ids() {
    assert_eq!(
        codex_thread_deep_link("019fea56-2aa8-7101-aadb-d7fd340fc913").unwrap(),
        "codex://threads/019fea56-2aa8-7101-aadb-d7fd340fc913"
    );
    assert!(codex_thread_deep_link("../settings").is_err());
    assert!(codex_thread_deep_link("thread\nopen").is_err());
    assert!(codex_thread_deep_link("").is_err());
}

#[test]
fn task_list_invites_a_direct_number_selection() {
    let body = format_task_list(&[task("thread-1", "修复登录", "/tmp/project")]);
    assert!(body.contains("1. [空闲] 修复登录"));
    assert!(body.contains("直接回复序号即可切换"));
    assert!(!body.contains("/attach"));
}

#[test]
fn task_messages_do_not_expose_parent_paths() {
    let body = format_task_list(&[task(
        "thread-1",
        "Project task",
        "/Users/private-user/Documents/SecretProject",
    )]);
    assert!(body.contains("SecretProject"));
    assert!(!body.contains("/Users/"));
    assert!(!body.contains("private-user"));
}

#[test]
fn system_messages_redact_paths_and_credentials() {
    let body = sanitize_weixin_system_text(
        "run --api-key actual-secret /Users/private-user/Documents/project Authorization: Bearer token-value",
        700,
        &[],
    );
    assert!(body.contains("[redacted]"));
    assert!(!body.contains("actual-secret"));
    assert!(!body.contains("token-value"));
    assert!(!body.contains("private-user"));
    assert!(!body.contains("/Users/"));
    assert!(body.contains("~/Documents/project"));
}

#[test]
fn rejects_non_weixin_base_urls() {
    assert!(normalize_weixin_base_url("http://ilinkai.weixin.qq.com").is_err());
    assert!(normalize_weixin_base_url("https://example.com").is_err());
    assert_eq!(
        normalize_weixin_base_url("https://ilinkai.weixin.qq.com/path").unwrap(),
        "https://ilinkai.weixin.qq.com"
    );
}

#[test]
fn detects_recent_open_turns_without_treating_completed_turns_as_active() {
    let open = lines(
        "{\"type\":\"event_msg\",\"payload\":{\"type\":\"task_started\",\"turn_id\":\"turn-1\"}}\n\
         {\"type\":\"response_item\",\"payload\":{}}\n",
    );
    assert!(has_open_turn(&open, false));
    let closed = lines(
        "{\"type\":\"event_msg\",\"payload\":{\"type\":\"task_started\",\"turn_id\":\"turn-1\"}}\n\
         {\"type\":\"event_msg\",\"payload\":{\"type\":\"task_complete\",\"turn_id\":\"turn-1\"}}\n",
    );
    assert!(!has_open_turn(&closed, false));
}

#[test]
fn extracts_the_matching_completed_turn_for_restart_recovery() {
    let entries = lines(
        "{\"type\":\"event_msg\",\"payload\":{\"type\":\"task_complete\",\"turn_id\":\"other-turn\",\"last_agent_message\":\"wrong\"}}\n\
         {\"type\":\"event_msg\",\"payload\":{\"type\":\"task_complete\",\"turn_id\":\"wanted-turn\",\"last_agent_message\":\"今天是星期三。\"}}\n",
    );
    match session_turn_outcome(&entries, false, "wanted-turn") {
        Some(SessionTurnOutcome::Completed(text)) => assert_eq!(text, "今天是星期三。"),
        _ => panic!("expected a completed turn"),
    }
    assert!(session_turn_outcome(&entries, false, "missing-turn").is_none());
}

#[test]
fn approval_summaries_name_the_reason_or_the_command() {
    let no_homes: Vec<String> = Vec::new();
    assert_eq!(
        approval_summary("item/permissions/requestApproval", &parse(r#"{"message": "needs network"}"#), &no_homes),
        "needs network"
    );
    assert_eq!(approval_summary("PermissionRequest", &parse("{}"), &no_homes), "Codex 请求额外权限。");
    assert_eq!(approval_summary("applyPatchApproval", &parse("{}"), &no_homes), "Codex 请求修改工作区文件。");
    assert_eq!(
        approval_summary("execCommandApproval", &parse(r#"{"command": ["git", 3, "push"]}"#), &no_homes),
        "git push"
    );
    assert_eq!(
        approval_summary("item/commandExecution/requestApproval", &parse(r#"{"command": {"argv": 1}}"#), &no_homes),
        r#"{"argv":1}"#
    );
    assert_eq!(
        approval_summary("item/commandExecution/requestApproval", &parse("{}"), &no_homes),
        "Codex 请求执行一条需要额外权限的命令。"
    );
}
