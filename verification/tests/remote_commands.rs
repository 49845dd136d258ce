use codex_xray::remote::{wechat_uin, RemoteApprovalSnapshot, RemoteChannelSnapshot};
use codex_xray::remote_commands::{attach_reply, parse_remote_command, status_text, RemoteCommand};

fn snapshot() -> RemoteChannelSnapshot {
    RemoteChannelSnapshot {
        enabled: true,
        state: "connected".to_string(),
        account_id: None,
        owner_user_id: None,
        qr_svg: None,
        verify_code_required: false,
        attached_thread_id: None,
        attached_thread_title: None,
        attached_cwd: None,
        control_ready: false,
        control_backend: "none".to_string(),
        active_turn_id: None,
        latest_activity: None,
        agent_preview: None,
        pending_approval: None,
        last_inbound_at: None,
        last_outbound_at: None,
        last_error: None,
    }
}

#[test]
fn reads_commands_from_the_first_word() {
    assert_eq!(parse_remote_command("/HELP", false), RemoteCommand::Help);
    assert_eq!(parse_remote_command("／list", false), RemoteCommand::ListTasks);
    assert_eq!(parse_remote_command("任务列表", false), RemoteCommand::ListTasks);
    assert_eq!(parse_remote_command("/attach", false), RemoteCommand::AttachWithoutNumber);
    assert_eq!(parse_remote_command("/use  2 ", false), RemoteCommand::Attach("2".to_string()));
    assert_eq!(parse_remote_command("接管\t3", false), RemoteCommand::Attach("3".to_string()));
    assert_eq!(parse_remote_command("/cancel", true), RemoteCommand::CancelSelection);
    assert_eq!(parse_remote_command("/cancel", false), RemoteCommand::Stop);
    assert_eq!(parse_remote_command("同意", false), RemoteCommand::Approve);
    assert_eq!(parse_remote_command("/no", false), RemoteCommand::Deny);
    assert_eq!(parse_remote_command("/lsit please", false), RemoteCommand::Unknown("/lsit".to_string()));
    assert_eq!(parse_remote_command("list the files", false), RemoteCommand::Prompt);
    assert_eq!(parse_remote_command(" /help", false), RemoteCommand::Prompt);
}

#[test]
fn status_names_the_target_and_the_next_step() {
    let idle = snapshot();
    assert_eq!(
        status_text(&idle),
        "微信通道：已连接\n控制：暂不可控制（未创建副本）\n下一步：请在 X-Ray 页面选择控制目标；人在外面时也可发送 /list 临时切换。"
    );
    let mut busy = snapshot();
    busy.state = "degraded".to_string();
    busy.attached_thread_id = Some("0123456789abcdef".to_string());
    busy.attached_thread_title = Some("Fix tests".to_string());
    busy.attached_cwd = Some("/Users/me/work/demo".to_string());
    busy.control_ready = true;
    busy.control_backend = "desktop_ipc".to_string();
    busy.active_turn_id = Some("turn-abcdefgh-1".to_string());
    busy.latest_activity = Some("running tests".to_string());
    busy.pending_approval = Some(RemoteApprovalSnapshot {
        kind: "command".to_string(),
        summary: "cargo test".to_string(),
        requested_at: "now".to_string(),
    });
    assert_eq!(
        status_text(&busy),
        "微信通道：连接异常\n任务：Fix tests\nID：01234567\n目录：demo\n控制：Codex Desktop 原任务（IPC）\n回合：turn-abc（运行中）\n主动反馈：已开启（自动限频）\n进度：running tests\n等待审批：使用 /approve 或 /deny"
    );
}

#[test]
fn attach_reply_names_task_folder_and_control() {
    let mut attached = snapshot();
    attached.attached_cwd = Some("/tmp/project".to_string());
    attached.control_ready = true;
    attached.control_backend = "xray_app_server".to_string();
    assert_eq!(
        attach_reply(&attached),
        "Codex 任务\nproject\n已选为 X-Ray 独立控制目标。现在直接发送普通文字即可。"
    );
}

#[test]
fn wechat_uin_is_base64_of_the_mixed_number() {
    assert_eq!(wechat_uin(0, 0), "MA==");
    assert_eq!(wechat_uin(123_456_789, 0), "MTIzNDU2Nzg5");
    assert_eq!(wechat_uin(0, 1), "MTMxMDcy");
}
