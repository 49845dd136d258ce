use codex_xray::desktop::{DesktopPendingRequest, DesktopThreadView, DesktopTurnOutcome};
use codex_xray::json::{JsonNumber, JsonValue};
use codex_xray::remote::{ProgressFeedback, RemoteTaskSummary, SessionTurnOutcome};
use codex_xray::remote_control::{
    acknowledgement, attach_without_desktop, begin_attach, client_message_id, deliver_result,
    desktop_attached, desktop_submit, monitor_step, reply_failed, reply_sent, resolve_attach,
    server_attached, server_turn_steered, still_expected, submit_step, turn_started, AttachStart, ControlState,
    MonitorEvent, MonitorNext, SubmitAction,
};

fn task(id: &str, status: &str) -> RemoteTaskSummary {
    RemoteTaskSummary {
        id: id.to_string(),
        title: format!("title {id}"),
        cwd: "/work/project".to_string(),
        status: status.to_string(),
        updated_at: 0,
        control_mode: "available".to_string(),
    }
}

fn idle_state() -> ControlState {
    ControlState {
        state: "connected".to_string(),
        attached_thread_id: None,
        attached_thread_title: None,
        attached_cwd: None,
        control_ready: false,
        control_backend: "none".to_string(),
        desktop_owner_client_id: None,
        active_turn_id: None,
        pending_thread_id: None,
        pending_turn_id: None,
        pending_reply_user_id: None,
        pending_reply_context_token: None,
        latest_activity: None,
        last_error: None,
        agent_preview: String::new(),
        pending_approval: None,
        task_selection_active: true,
    }
}

fn no_homes() -> Vec<String> {
    Vec::new()
}

#[test]
fn attach_requests_pick_exactly_one_task() {
    let tasks = vec![task("019abc-1", "idle"), task("019abd-2", "idle"), task("777", "idle")];
    let choices = vec!["777".to_string(), "019abd-2".to_string()];
    assert_eq!(resolve_attach("  ", &tasks, &choices), Err("任务 ID 不能为空。".to_string()));
    assert_eq!(resolve_attach("2", &tasks, &choices), Ok(1));
    assert_eq!(resolve_attach(" 1 ", &tasks, &choices), Ok(2));
    assert_eq!(resolve_attach("019abc", &tasks, &choices), Ok(0));
    assert_eq!(resolve_attach("019ab", &tasks, &choices), Err("任务 ID 前缀不唯一，请提供更多字符。".to_string()));
    assert_eq!(resolve_attach("nothing", &tasks, &choices), Err("没有找到匹配的 Codex 任务。".to_string()));
    assert_eq!(resolve_attach("9", &tasks, &choices), Err("没有找到匹配的 Codex 任务。".to_string()));
}

#[test]
fn attaching_keeps_a_controlled_task_and_resets_another() {
    let t = task("t1", "idle");
    let mut state = idle_state();
    state.attached_thread_id = Some("t1".to_string());
    state.control_ready = true;
    state.control_backend = "desktop_ipc".to_string();
    assert!(matches!(begin_attach(&mut state, &t), AttachStart::AlreadyControlled));
    assert!(state.control_ready);

    let other = task("t2", "idle");
    state.active_turn_id = Some("turn".to_string());
    match begin_attach(&mut state, &other) {
        AttachStart::Probe { previous_desktop_thread } => assert_eq!(previous_desktop_thread.as_deref(), Some("t1")),
        AttachStart::AlreadyControlled => panic!("a different task must be probed"),
    }
    assert_eq!(state.attached_thread_id.as_deref(), Some("t2"));
    assert!(!state.control_ready);
    assert_eq!(state.control_backend, "none");
    assert_eq!(state.active_turn_id, None);
    assert_eq!(state.latest_activity.as_deref(), Some("正在检测 Codex Desktop 原任务…"));
}

#[test]
fn desktop_answer_gives_control_with_its_approval() {
    let t = task("t1", "running");
    let mut state = idle_state();
    let view = DesktopThreadView {
        active_turn_id: Some("turn-9".to_string()),
        agent_preview: Some("working".to_string()),
        pending_request: Some(DesktopPendingRequest {
            request_id: JsonValue::Number(JsonNumber::Unsigned(4)),
            method: "applyPatchApproval".to_string(),
            params: JsonValue::Object(Vec::new()),
        }),
        outcome: None,
    };
    desktop_attached(&mut state, &t, "owner-1".to_string(), view, &no_homes());
    assert!(state.control_ready);
    assert_eq!(state.control_backend, "desktop_ipc");
    assert_eq!(state.desktop_owner_client_id.as_deref(), Some("owner-1"));
    assert_eq!(state.active_turn_id.as_deref(), Some("turn-9"));
    assert_eq!(state.agent_preview, "working");
    let approval = state.pending_approval.as_ref().expect("approval");
    assert_eq!(approval.kind, "文件修改");
    assert_eq!(approval.summary, "Codex 请求修改工作区文件。");
}

#[test]
fn busy_tasks_are_never_resumed_a_second_time() {
    let mut state = idle_state();
    let busy = task("t1", "running");
    assert!(!attach_without_desktop(&mut state, &busy, None, &no_homes()));
    assert!(!state.control_ready);
    assert_eq!(
        state.latest_activity.as_deref(),
        Some("X-Ray 已尝试自动唤醒原任务，但写入权仍由 Codex Desktop 持有，IPC 尚未建立；未创建副本或新会话")
    );
    assert!(state.last_error.as_deref().unwrap().contains("X-Ray 没有创建副本或新会话"));

    let mut fresh = idle_state();
    let idle = task("t2", "idle");
    assert!(attach_without_desktop(&mut fresh, &idle, None, &no_homes()));
    assert_eq!(fresh.attached_thread_id, None);

    assert_eq!(server_attached(&mut fresh, &idle, Ok("t2".to_string()), None, &no_homes()), Ok(()));
    assert!(fresh.control_ready);
    assert_eq!(fresh.control_backend, "xray_app_server");

    let mut conflict = idle_state();
    assert_eq!(
        server_attached(&mut conflict, &idle, Err("Thread has an Active Writer".to_string()), None, &no_homes()),
        Ok(())
    );
    assert!(!conflict.control_ready);
    let mut failed = idle_state();
    assert_eq!(
        server_attached(&mut failed, &idle, Err("boom".to_string()), None, &no_homes()),
        Err("接管原 Codex 任务失败：boom".to_string())
    );
    assert_eq!(failed.attached_thread_id, None);
}

#[test]
fn prompts_go_to_the_attached_task_only() {
    let mut state = idle_state();
    match submit_step(&state, false) {
        SubmitAction::Reply(text) => assert!(text.starts_with("X-Ray 还没有选择微信控制目标")),
        other => panic!("unexpected {other:?}"),
    }
    state.attached_thread_id = Some("t1".to_string());
    assert!(matches!(submit_step(&state, false), SubmitAction::Reattach(ref id) if id == "t1"));
    assert!(matches!(submit_step(&state, true), SubmitAction::Reply(ref t) if t.contains("本次没有创建副本或新会话")));
    state.control_ready = true;
    state.control_backend = "desktop_ipc".to_string();
    assert!(matches!(submit_step(&state, false), SubmitAction::RefreshDesktop(ref id) if id == "t1"));
    assert_eq!(desktop_submit(&state).unwrap_err(), "Codex Desktop 控制 owner 已丢失");
    state.desktop_owner_client_id = Some("owner".to_string());
    state.active_turn_id = Some("turn-1".to_string());
    state.pending_turn_id = Some("turn-1".to_string());
    let plan = desktop_submit(&state).unwrap();
    assert_eq!(plan.thread_id, "t1");
    assert_eq!(plan.steer_turn_id.as_deref(), Some("turn-1"));
    assert!(plan.already_monitored);
    state.control_backend = "xray_app_server".to_string();
    assert!(matches!(
        submit_step(&state, false),
        SubmitAction::SteerServerTurn { ref thread_id, ref turn_id } if thread_id == "t1" && turn_id == "turn-1"
    ));
    state.active_turn_id = None;
    assert!(matches!(submit_step(&state, false), SubmitAction::StartServerTurn { ref thread_id } if thread_id == "t1"));
    state.control_backend = "none".to_string();
    assert!(matches!(
        submit_step(&state, false),
        SubmitAction::Refuse(ref e) if e == "当前目标没有可用控制链路；X-Ray 没有创建副本。请在 Mac 上重新选择目标。"
    ));
    assert_eq!(client_message_id("m-5"), "weixin-m-5");
    assert_eq!(server_turn_steered(&mut state), "✅ 已追加到当前 Codex 回合，我会继续同步进度。");
    assert_eq!(state.latest_activity.as_deref(), Some("已向正在执行的回合追加指令"));
}

#[test]
fn started_turns_are_followed_and_acknowledged() {
    let mut state = idle_state();
    state.attached_thread_id = Some("t1".to_string());
    state.control_backend = "desktop_ipc".to_string();
    state.agent_preview = "old".to_string();
    turn_started(&mut state, "t1", "turn-2", false, "user-1", Some("ctx".to_string()));
    assert!(still_expected(&state, "turn-2"));
    assert_eq!(state.agent_preview, "");
    assert_eq!(state.latest_activity.as_deref(), Some("Codex Desktop 原任务正在处理微信指令"));
    assert_eq!(
        acknowledgement(true, false, None),
        "✅ 已收到，Codex Desktop 原任务正在处理。超过约 10 秒会主动同步进度；也可发送 /status 查看，/stop 停止。"
    );
    assert_eq!(
        acknowledgement(false, false, Some("disk full")),
        "✅ 已收到，Codex 正在处理。超过约 10 秒会主动同步进度。\n\n但重启恢复信息保存失败：disk full\n请保持 X-Ray 开启。"
    );
    assert_eq!(
        acknowledgement(true, true, Some("ignored")),
        "✅ 已追加到 Codex Desktop 正在执行的原回合，我会继续同步进度。"
    );
}

#[test]
fn monitor_delivers_the_turn_once_and_paces_progress() {
    let mut state = idle_state();
    state.attached_thread_id = Some("t1".to_string());
    state.attached_thread_title = Some("Fix bug".to_string());
    state.control_backend = "desktop_ipc".to_string();
    turn_started(&mut state, "t1", "turn-3", false, "user-1", None);
    let mut feedback = ProgressFeedback::new(0);

    let quiet = monitor_step(&mut state, &mut feedback, MonitorEvent::Quiet(None), 5_000, &no_homes());
    assert!(quiet.notices.is_empty());
    assert!(matches!(quiet.next, MonitorNext::Continue));

    let update = DesktopThreadView {
        active_turn_id: Some("turn-3".to_string()),
        agent_preview: Some("half done".to_string()),
        pending_request: None,
        outcome: None,
    };
    let step = monitor_step(&mut state, &mut feedback, MonitorEvent::Update(update), 12_000, &no_homes());
    assert_eq!(
        step.notices,
        vec!["⏳ 仍在处理中（已运行 12 秒）\n任务：Fix bug\n来源：Desktop 原任务\n进度：Codex Desktop 正在生成回复\n最新输出：half done\n我会继续跟进；也可以发送 /status 查看详情，/stop 停止。".to_string()]
    );
    let again = monitor_step(&mut state, &mut feedback, MonitorEvent::Quiet(None), 13_000, &no_homes());
    assert!(again.notices.is_empty());

    let done = DesktopThreadView {
        active_turn_id: None,
        agent_preview: None,
        pending_request: None,
        outcome: Some(DesktopTurnOutcome::Completed("fallback".to_string())),
    };
    let last = monitor_step(&mut state, &mut feedback, MonitorEvent::Update(done), 14_000, &no_homes());
    let (fallback, activity) = match last.next {
        MonitorNext::Deliver { fallback, activity } => (fallback, activity),
        other => panic!("unexpected {other:?}"),
    };
    assert_eq!(activity, "Codex Desktop 原回合已完成");
    assert_eq!(deliver_result(&mut state, fallback, activity), "✅ Codex 已完成\n\nhalf done");
    assert_eq!(state.agent_preview, "");
    reply_sent(&mut state, "turn-3");
    assert!(!still_expected(&state, "turn-3"));
}

#[test]
fn monitor_recovers_endings_from_the_session_log() {
    let mut state = idle_state();
    let mut feedback = ProgressFeedback::new(0);
    let step = monitor_step(
        &mut state,
        &mut feedback,
        MonitorEvent::Broken { error: "pipe".to_string(), session: Some(SessionTurnOutcome::Aborted) },
        1,
        &no_homes(),
    );
    match step.next {
        MonitorNext::Deliver { fallback, activity } => {
            assert_eq!(fallback, "Codex 回合已停止。");
            assert_eq!(deliver_result(&mut state, fallback, activity), "⏹️ Codex 已停止\n\nCodex 回合已停止。");
        }
        other => panic!("unexpected {other:?}"),
    }
    let broken = monitor_step(&mut state, &mut feedback, MonitorEvent::Broken { error: "pipe".to_string(), session: None }, 2, &no_homes());
    assert!(matches!(broken.next, MonitorNext::Reconnect(ref e) if e == "pipe"));
    reply_failed(&mut state, "offline");
    assert_eq!(state.state, "degraded");
    assert_eq!(state.last_error.as_deref(), Some("Codex 已完成，但微信回复失败：offline"));
}
