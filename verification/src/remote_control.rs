//! Control of an existing Codex task from WeChat: which task a request names,
//! how the channel takes the task over, what a prompt is sent as, and what each
//! update of a running turn calls for. The channel's loop performs each action
//! (IPC, App Server calls, WeChat messages) and hands the outcome back here.
//! No step ever creates a new task or a copy of one: every action names the
//! task that is attached.
use vstd::prelude::*;
use crate::desktop::{parsed_index, parse_index, DesktopPendingRequest, DesktopThreadView, DesktopTurnOutcome};
use crate::json::{opt_str_view, opt_string_view, JsonValue};
use crate::remote::{
    approval_kind, approval_kind_text, approval_summary, approval_summary_text, attach_error_message,
    attach_error_text, control_unavailable_text, desktop_control_unavailable_message, is_active_writer_conflict,
    writer_conflict, RemoteTaskSummary,
};
use crate::sanitize::strings_view;
use crate::text::{has_prefix, str_eq, str_starts_with, str_trim, trim_spec};

verus! {

broadcast use vstd::string::group_string_axioms;

/// Resolves a task request: a list number picks from the last list shown,
/// anything else is a task ID or its prefix.
pub open spec fn resolved_id(requested: Seq<char>, choices: Seq<Seq<char>>) -> Seq<char> {
    match parsed_index(requested) {
        Some(n) => if 1 <= n && n - 1 < choices.len() {
            choices[n - 1]
        } else {
            requested
        },
        None => requested,
    }
}

/// A task matches an ID that equals its own or starts it.
pub open spec fn task_matches(task_id: Seq<char>, wanted: Seq<char>) -> bool {
    task_id == wanted || has_prefix(task_id, wanted)
}

/// The positions of the tasks among the first `n` that match `wanted`.
pub open spec fn matching(tasks: Seq<RemoteTaskSummary>, wanted: Seq<char>, n: nat) -> Seq<int>
    decreases n,
{
    if n == 0 {
        Seq::empty()
    } else if task_matches(tasks[n - 1].id@, wanted) {
        matching(tasks, wanted, (n - 1) as nat).push(n - 1)
    } else {
        matching(tasks, wanted, (n - 1) as nat)
    }
}

/// The task a request picks, or why it picks none: the request is trimmed,
/// resolved, and must match exactly one task.
pub open spec fn attach_choice(requested: Seq<char>, tasks: Seq<RemoteTaskSummary>, choices: Seq<Seq<char>>) -> Result<int, Seq<char>> {
    let req = trim_spec(requested);
    if req.len() == 0 {
        Err("任务 ID 不能为空。"@)
    } else {
        let found = matching(tasks, resolved_id(req, choices), tasks.len());
        if found.len() == 1 {
            Ok(found[0])
        } else if found.len() == 0 {
            Err("没有找到匹配的 Codex 任务。"@)
        } else {
            Err("任务 ID 前缀不唯一，请提供更多字符。"@)
        }
    }
}

proof fn lemma_matching_facts(tasks: Seq<RemoteTaskSummary>, wanted: Seq<char>, n: nat)
    requires
        n <= tasks.len(),
    ensures
        matching(tasks, wanted, n).len() <= n,
        forall|k: int| 0 <= k < matching(tasks, wanted, n).len() ==> 0 <= #[trigger] matching(tasks, wanted, n)[k] < n
            && task_matches(tasks[matching(tasks, wanted, n)[k]].id@, wanted),
    decreases n,
{
    if n > 0 {
        lemma_matching_facts(tasks, wanted, (n - 1) as nat);
    }
}

/// The position, in `tasks`, of the task a WeChat request picks. `choices`
/// holds the IDs of the last list shown, so `2` picks the second of them.
pub fn resolve_attach(requested: &str, tasks: &[RemoteTaskSummary], choices: &[String]) -> (r: Result<usize, String>)
    ensures
        match attach_choice(requested@, tasks@, strings_view(choices@)) {
            Ok(i) => r == Ok::<usize, String>(i as usize),
            Err(e) => r matches Err(x) && x@ == e,
        },
{
    let req = str_trim(requested);
    if req.is_empty() {
        return Err("任务 ID 不能为空。".to_owned());
    }
    let wanted: &str = match parse_index(req) {
        Some(n) => if n >= 1 && n - 1 < choices.len() {
            choices[n - 1].as_str()
        } else {
            req
        },
        None => req,
    };
    assert(wanted@ == resolved_id(req@, strings_view(choices@)));
    let mut count: usize = 0;
    let mut first: usize = 0;
    let mut i: usize = 0;
    while i < tasks.len()
        invariant
            i <= tasks@.len(),
            count == matching(tasks@, wanted@, i as nat).len(),
            count > 0 ==> first == matching(tasks@, wanted@, i as nat)[0],
        decreases tasks@.len() - i,
    {
        proof {
            lemma_matching_facts(tasks@, wanted@, i as nat);
        }
        let id = tasks[i].id.as_str();
        if str_eq(id, wanted) || str_starts_with(id, wanted) {
            if count == 0 {
                first = i;
            }
            count = count + 1;
        }
        i = i + 1;
    }
    if count == 1 {
        Ok(first)
    } else if count == 0 {
        Err("没有找到匹配的 Codex 任务。".to_owned())
    } else {
        Err("任务 ID 前缀不唯一，请提供更多字符。".to_owned())
    }
}

/// An approval the attached task is waiting for.
#[derive(Debug)]
pub struct PendingApproval {
    pub request_id: JsonValue,
    pub method: String,
    pub kind: String,
    pub summary: String,
}

/// What the channel keeps about the task it controls and the turn it follows.
#[derive(Debug)]
pub struct ControlState {
    pub state: String,
    pub attached_thread_id: Option<String>,
    pub attached_thread_title: Option<String>,
    pub attached_cwd: Option<String>,
    pub control_ready: bool,
    pub control_backend: String,
    pub desktop_owner_client_id: Option<String>,
    pub active_turn_id: Option<String>,
    pub pending_thread_id: Option<String>,
    pub pending_turn_id: Option<String>,
    pub pending_reply_user_id: Option<String>,
    pub pending_reply_context_token: Option<String>,
    pub latest_activity: Option<String>,
    pub last_error: Option<String>,
    pub agent_preview: String,
    pub pending_approval: Option<PendingApproval>,
    pub task_selection_active: bool,
}

/// The approval a pending Desktop request asks for, as WeChat shows it.
pub fn pending_approval_of(request: &DesktopPendingRequest, homes: &[String]) -> (r: PendingApproval)
    ensures
        r.request_id@ == request.request_id@,
        r.method@ == request.method@,
        r.kind@ == approval_kind_text(request.method@),
        r.summary@ == approval_summary_text(request.method@, request.params@, strings_view(homes@)),
{
    PendingApproval {
        request_id: request.request_id.duplicate(),
        method: request.method.clone(),
        kind: approval_kind(request.method.as_str()).to_owned(),
        summary: approval_summary(request.method.as_str(), &request.params, homes),
    }
}

/// How an attach request goes on once its task is known.
#[derive(Debug)]
pub enum AttachStart {
    /// The task is already attached and controlled: nothing changes.
    AlreadyControlled,
    /// Probe Codex Desktop for the task; `previous_desktop_thread` is the task
    /// that was controlled over IPC before, if any.
    Probe { previous_desktop_thread: Option<String> },
}

/// The task is attached, with the control state that the other fields say.
pub open spec fn attached_to(s: ControlState, task: RemoteTaskSummary) -> bool {
    &&& opt_string_view(s.attached_thread_title) == Some(task.title@)
    &&& opt_string_view(s.attached_cwd) == Some(task.cwd@)
    &&& !s.task_selection_active
}

/// Starts attaching `task`. A task already attached and controlled is left as
/// it is. Otherwise the task becomes the target, not yet controlled, and every
/// trace of the previous target's turn is cleared before Desktop is probed.
pub fn begin_attach(state: &mut ControlState, task: &RemoteTaskSummary) -> (r: AttachStart)
    ensures
        old(state).control_ready && opt_string_view(old(state).attached_thread_id) == Some(task.id@) ==> (
            r is AlreadyControlled && *final(state) == *old(state)),
        !(old(state).control_ready && opt_string_view(old(state).attached_thread_id) == Some(task.id@)) ==> {
            &&& r matches AttachStart::Probe { previous_desktop_thread } && opt_string_view(previous_desktop_thread)
                == if old(state).control_backend@ == "desktop_ipc"@ {
                opt_string_view(old(state).attached_thread_id)
            } else {
                None
            }
            &&& opt_string_view(final(state).attached_thread_id) == Some(task.id@)
            &&& attached_to(*final(state), *task)
            &&& !final(state).control_ready
            &&& final(state).control_backend@ == "none"@
            &&& final(state).desktop_owner_client_id is None
            &&& final(state).active_turn_id is None
            &&& final(state).agent_preview@.len() == 0
            &&& final(state).pending_approval is None
            &&& opt_string_view(final(state).latest_activity) == Some("正在检测 Codex Desktop 原任务…"@)
            &&& final(state).last_error is None
            &&& final(state).state == old(state).state
            &&& final(state).pending_thread_id == old(state).pending_thread_id
            &&& final(state).pending_turn_id == old(state).pending_turn_id
        },
{
    let controlled = state.control_ready && match &state.attached_thread_id {
        Some(id) => str_eq(id.as_str(), task.id.as_str()),
        None => false,
    };
    if controlled {
        return AttachStart::AlreadyControlled;
    }
    let previous_desktop_thread = if str_eq(state.control_backend.as_str(), "desktop_ipc") {
        state.attached_thread_id.clone()
    } else {
        None
    };
    state.attached_thread_id = Some(task.id.clone());
    state.attached_thread_title = Some(task.title.clone());
    state.attached_cwd = Some(task.cwd.clone());
    state.control_ready = false;
    state.control_backend = "none".to_owned();
    state.desktop_owner_client_id = None;
    state.active_turn_id = None;
    state.agent_preview = String::new();
    state.pending_approval = None;
    state.latest_activity = Some("正在检测 Codex Desktop 原任务…".to_owned());
    state.last_error = None;
    state.task_selection_active = false;
    AttachStart::Probe { previous_desktop_thread }
}

/// Desktop answered for the task: the channel controls it over IPC through
/// `owner`, and takes over the turn, preview and approval that Desktop shows.
pub fn desktop_attached(
    state: &mut ControlState,
    task: &RemoteTaskSummary,
    owner: String,
    view: DesktopThreadView,
    homes: &[String],
)
    ensures
        opt_string_view(final(state).attached_thread_id) == Some(task.id@),
        attached_to(*final(state), *task),
        final(state).control_ready,
        final(state).control_backend@ == "desktop_ipc"@,
        opt_string_view(final(state).desktop_owner_client_id) == Some(owner@),
        opt_string_view(final(state).active_turn_id) == opt_string_view(view.active_turn_id),
        final(state).agent_preview@ == match view.agent_preview {
            Some(p) => p@,
            None => Seq::<char>::empty(),
        },
        match view.pending_request {
            Some(req) => final(state).pending_approval matches Some(a) && a.request_id@ == req.request_id@
                && a.kind@ == approval_kind_text(req.method@) && a.summary@ == approval_summary_text(
                req.method@,
                req.params@,
                strings_view(homes@),
            ),
            None => final(state).pending_approval is None,
        },
        opt_string_view(final(state).latest_activity) == Some("已自动连接 Codex Desktop 中的原任务"@),
        final(state).last_error is None,
        final(state).pending_turn_id == old(state).pending_turn_id,
{
    let pending = match &view.pending_request {
        Some(req) => Some(pending_approval_of(req, homes)),
        None => None,
    };
    let DesktopThreadView { active_turn_id, agent_preview, pending_request: _, outcome: _ } = view;
    state.attached_thread_id = Some(task.id.clone());
    state.attached_thread_title = Some(task.title.clone());
    state.attached_cwd = Some(task.cwd.clone());
    state.control_ready = true;
    state.control_backend = "desktop_ipc".to_owned();
    state.desktop_owner_client_id = Some(owner);
    state.active_turn_id = active_turn_id;
    state.agent_preview = match agent_preview {
        Some(p) => p,
        None => String::new(),
    };
    state.pending_approval = pending;
    state.latest_activity = Some("已自动连接 Codex Desktop 中的原任务".to_owned());
    state.last_error = None;
    state.task_selection_active = false;
}

/// A task that is running or waiting elsewhere.
pub open spec fn active_elsewhere(status: Seq<char>) -> bool {
    status == "running"@ || status == "waiting_approval"@ || status == "waiting_input"@
}

/// The task stays the target but cannot be controlled: Desktop holds it.
pub open spec fn occupied(s: ControlState, old_s: ControlState, task: RemoteTaskSummary, failure: Seq<char>) -> bool {
    &&& opt_string_view(s.attached_thread_id) == Some(task.id@)
    &&& attached_to(s, task)
    &&& !s.control_ready
    &&& s.control_backend@ == "none"@
    &&& s.desktop_owner_client_id is None
    &&& opt_string_view(s.latest_activity) == Some(crate::remote::occupied_activity_text())
    &&& opt_string_view(s.last_error) == Some(failure)
    &&& s.active_turn_id == old_s.active_turn_id
    &&& s.pending_turn_id == old_s.pending_turn_id
}

fn mark_occupied(state: &mut ControlState, task: &RemoteTaskSummary, failure: String)
    ensures
        occupied(*final(state), *old(state), *task, failure@),
{
    state.attached_thread_id = Some(task.id.clone());
    state.attached_thread_title = Some(task.title.clone());
    state.attached_cwd = Some(task.cwd.clone());
    state.control_ready = false;
    state.control_backend = "none".to_owned();
    state.desktop_owner_client_id = None;
    state.latest_activity = Some(crate::remote::occupied_activity());
    state.last_error = Some(failure);
    state.task_selection_active = false;
}

/// Desktop did not answer for the task. A task that is running or waiting
/// elsewhere is never resumed a second time: it stays the target, marked as
/// held by Desktop, and `false` comes back. An idle task may be resumed by the
/// channel's own App Server: `true` comes back and nothing changes.
pub fn attach_without_desktop(
    state: &mut ControlState,
    task: &RemoteTaskSummary,
    desktop_error: Option<&str>,
    homes: &[String],
) -> (r: bool)
    ensures
        r == !active_elsewhere(task.status@),
        r ==> *final(state) == *old(state),
        !r ==> occupied(*final(state), *old(state), *task, control_unavailable_text(opt_str_view(desktop_error), strings_view(homes@))),
{
    let status = task.status.as_str();
    if str_eq(status, "running") || str_eq(status, "waiting_approval") || str_eq(status, "waiting_input") {
        let failure = desktop_control_unavailable_message(desktop_error, homes);
        mark_occupied(state, task, failure);
        false
    } else {
        true
    }
}

/// The App Server answered a request to resume the idle task. On success the
/// channel controls the task it resumed; a writer conflict leaves the task
/// held by Desktop; any other error is returned and changes nothing.
pub fn server_attached(
    state: &mut ControlState,
    task: &RemoteTaskSummary,
    result: Result<String, String>,
    desktop_error: Option<&str>,
    homes: &[String],
) -> (r: Result<(), String>)
    ensures
        match result {
            Ok(thread_id) => r is Ok && opt_string_view(final(state).attached_thread_id) == Some(thread_id@)
                && attached_to(*final(state), *task) && final(state).control_ready
                && final(state).control_backend@ == "xray_app_server"@ && final(state).desktop_owner_client_id is None
                && final(state).active_turn_id is None && final(state).agent_preview@.len() == 0
                && final(state).pending_approval is None && opt_string_view(final(state).latest_activity) == Some(
                "已由 X-Ray 独立 App Server 接管原任务"@,
            ) && final(state).last_error is None,
            Err(error) => if writer_conflict(error@) {
                r is Ok && occupied(
                    *final(state),
                    *old(state),
                    *task,
                    control_unavailable_text(opt_str_view(desktop_error), strings_view(homes@)),
                )
            } else {
                (r matches Err(x) && x@ == attach_error_text(error@, strings_view(homes@))) && *final(state)
                    == *old(state)
            },
        },
{
    match result {
        Ok(thread_id) => {
            state.attached_thread_id = Some(thread_id);
            state.attached_thread_title = Some(task.title.clone());
            state.attached_cwd = Some(task.cwd.clone());
            state.control_ready = true;
            state.control_backend = "xray_app_server".to_owned();
            state.desktop_owner_client_id = None;
            state.active_turn_id = None;
            state.agent_preview = String::new();
            state.pending_approval = None;
            state.latest_activity = Some("已由 X-Ray 独立 App Server 接管原任务".to_owned());
            state.last_error = None;
            state.task_selection_active = false;
            Ok(())
        },
        Err(error) => {
            if is_active_writer_conflict(error.as_str()) {
                let failure = desktop_control_unavailable_message(desktop_error, homes);
                mark_occupied(state, task, failure);
                Ok(())
            } else {
                Err(attach_error_message(error.as_str(), homes))
            }
        },
    }
}

pub open spec fn no_target_text() -> Seq<char> {
    "X-Ray 还没有选择微信控制目标。请在 Mac 的 X-Ray「远程通道」页面选择一个现有任务，或明确新建任务；人在外面时也可以发送 /list 临时选择。"@
}

pub open spec fn no_control_path_text() -> Seq<char> {
    "当前目标没有可用控制链路；X-Ray 没有创建副本。请在 Mac 上重新选择目标。"@
}

/// What a prompt from WeChat leads to. Every variant that sends anything
/// names the attached task; none starts a new task or a copy.
#[derive(Debug)]
pub enum SubmitAction {
    /// Reply with this text and send nothing to Codex.
    Reply(String),
    /// The target is not controlled yet: attach it again, and ask with `reattached` set.
    Reattach(String),
    /// Desktop controls the task: refresh its view, and ask `desktop_submit`.
    RefreshDesktop(String),
    /// Add the prompt to the running turn of the task, through the App Server.
    SteerServerTurn { thread_id: String, turn_id: String },
    /// Start a turn of the task with the prompt, through the App Server.
    StartServerTurn { thread_id: String },
    /// Refuse with this error.
    Refuse(String),
}

/// How a WeChat prompt is sent on. With no target, the channel says so. A
/// target not yet controlled is attached again first; if it still cannot be
/// controlled, the channel says that Desktop holds it. A controlled task gets
/// the prompt through Desktop or through the App Server, in its running turn
/// when there is one; every action names the attached task and nothing else.
pub fn submit_step(state: &ControlState, reattached: bool) -> (r: SubmitAction)
    ensures
        match state.attached_thread_id {
            None => r matches SubmitAction::Reply(t) && t@ == no_target_text(),
            Some(thread) => if !state.control_ready {
                if reattached {
                    r matches SubmitAction::Reply(t) && t@ == crate::remote::occupied_text()
                } else {
                    r matches SubmitAction::Reattach(id) && id@ == thread@
                }
            } else if state.control_backend@ == "desktop_ipc"@ {
                r matches SubmitAction::RefreshDesktop(id) && id@ == thread@
            } else if state.control_backend@ == "xray_app_server"@ {
                match state.active_turn_id {
                    Some(turn) => r matches SubmitAction::SteerServerTurn { thread_id, turn_id } && thread_id@ == thread@
                        && turn_id@ == turn@,
                    None => r matches SubmitAction::StartServerTurn { thread_id } && thread_id@ == thread@,
                }
            } else {
                r matches SubmitAction::Refuse(e) && e@ == no_control_path_text()
            },
        },
{
    let thread = match &state.attached_thread_id {
        Some(t) => t,
        None => {
            return SubmitAction::Reply(
                "X-Ray 还没有选择微信控制目标。请在 Mac 的 X-Ray「远程通道」页面选择一个现有任务，或明确新建任务；人在外面时也可以发送 /list 临时选择。".to_owned(),
            );
        },
    };
    if !state.control_ready {
        if reattached {
            return SubmitAction::Reply(crate::remote::occupied_weixin_message().to_owned());
        }
        return SubmitAction::Reattach(thread.clone());
    }
    if str_eq(state.control_backend.as_str(), "desktop_ipc") {
        return SubmitAction::RefreshDesktop(thread.clone());
    }
    if str_eq(state.control_backend.as_str(), "xray_app_server") {
        return match &state.active_turn_id {
            Some(turn) => SubmitAction::SteerServerTurn { thread_id: thread.clone(), turn_id: turn.clone() },
            None => SubmitAction::StartServerTurn { thread_id: thread.clone() },
        };
    }
    SubmitAction::Refuse(
        "当前目标没有可用控制链路；X-Ray 没有创建副本。请在 Mac 上重新选择目标。".to_owned(),
    )
}

/// A prompt for a task controlled over Desktop IPC.
#[derive(Debug)]
pub struct DesktopSubmit {
    pub thread_id: String,
    pub owner: String,
    /// The running turn the prompt is added to; `None` starts a turn.
    pub steer_turn_id: Option<String>,
    /// Whether a monitor already follows the running turn.
    pub already_monitored: bool,
}

/// The Desktop request for a prompt, once Desktop's view has been refreshed:
/// the attached task, through its owner, into the running turn if any.
pub fn desktop_submit(state: &ControlState) -> (r: Result<DesktopSubmit, String>)
    requires
        state.attached_thread_id is Some,
    ensures
        match state.desktop_owner_client_id {
            None => r matches Err(e) && e@ == "Codex Desktop 控制 owner 已丢失"@,
            Some(owner) => r matches Ok(plan) && plan.thread_id@ == state.attached_thread_id->Some_0@
                && plan.owner@ == owner@ && opt_string_view(plan.steer_turn_id) == opt_string_view(
                state.active_turn_id,
            ) && plan.already_monitored == (state.active_turn_id is Some && opt_string_view(state.pending_turn_id)
                == opt_string_view(state.active_turn_id)),
        },
{
    let owner = match &state.desktop_owner_client_id {
        Some(o) => o.clone(),
        None => {
            return Err("Codex Desktop 控制 owner 已丢失".to_owned());
        },
    };
    let thread_id = match &state.attached_thread_id {
        Some(t) => t.clone(),
        None => String::new(),
    };
    let already_monitored = match (&state.active_turn_id, &state.pending_turn_id) {
        (Some(a), Some(p)) => str_eq(a.as_str(), p.as_str()),
        _ => false,
    };
    Ok(DesktopSubmit { thread_id, owner, steer_turn_id: state.active_turn_id.clone(), already_monitored })
}

/// The message ID a prompt is sent under: its WeChat message ID, marked.
pub fn client_message_id(message_id: &str) -> (r: String)
    ensures
        r@ == "weixin-"@ + message_id@,
{
    let mut out = "weixin-".to_owned();
    out.append(message_id);
    out
}

/// A turn of the attached task now carries the prompt: the channel follows
/// it and answers the sender when it ends. A turn that was started (not
/// steered) begins with no preview and no approval.
pub fn turn_started(
    state: &mut ControlState,
    thread_id: &str,
    turn_id: &str,
    steered: bool,
    user_id: &str,
    context_token: Option<String>,
)
    ensures
        opt_string_view(final(state).active_turn_id) == Some(turn_id@),
        opt_string_view(final(state).pending_thread_id) == Some(thread_id@),
        opt_string_view(final(state).pending_turn_id) == Some(turn_id@),
        opt_string_view(final(state).pending_reply_user_id) == Some(user_id@),
        final(state).pending_reply_context_token == context_token,
        opt_string_view(final(state).latest_activity) == Some(
            if old(state).control_backend@ == "desktop_ipc"@ {
                if steered {
                    "已向 Codex Desktop 当前回合追加指令"@
                } else {
                    "Codex Desktop 原任务正在处理微信指令"@
                }
            } else {
                "Codex 正在处理微信指令"@
            },
        ),
        steered ==> final(state).agent_preview == old(state).agent_preview && final(state).pending_approval
            == old(state).pending_approval,
        !steered ==> final(state).agent_preview@.len() == 0 && final(state).pending_approval is None,
        final(state).attached_thread_id == old(state).attached_thread_id,
        final(state).control_backend == old(state).control_backend,
{
    state.active_turn_id = Some(turn_id.to_owned());
    state.pending_thread_id = Some(thread_id.to_owned());
    state.pending_turn_id = Some(turn_id.to_owned());
    state.pending_reply_user_id = Some(user_id.to_owned());
    state.pending_reply_context_token = context_token;
    let activity = if str_eq(state.control_backend.as_str(), "desktop_ipc") {
        if steered {
            "已向 Codex Desktop 当前回合追加指令"
        } else {
            "Codex Desktop 原任务正在处理微信指令"
        }
    } else {
        "Codex 正在处理微信指令"
    };
    state.latest_activity = Some(activity.to_owned());
    if !steered {
        state.agent_preview = String::new();
        state.pending_approval = None;
    }
}

/// The prompt was added to the App Server's running turn.
pub fn server_turn_steered(state: &mut ControlState) -> (r: String)
    ensures
        opt_string_view(final(state).latest_activity) == Some("已向正在执行的回合追加指令"@),
        r@ == "✅ 已追加到当前 Codex 回合，我会继续同步进度。"@,
{
    state.latest_activity = Some("已向正在执行的回合追加指令".to_owned());
    "✅ 已追加到当前 Codex 回合，我会继续同步进度。".to_owned()
}

pub open spec fn acknowledgement_text(desktop: bool, steered: bool, warning: Option<Seq<char>>) -> Seq<char> {
    if desktop && steered {
        "✅ 已追加到 Codex Desktop 正在执行的原回合，我会继续同步进度。"@
    } else {
        let who = if desktop {
            "Codex Desktop 原任务正在处理。"@
        } else {
            "Codex 正在处理。"@
        };
        match warning {
            Some(w) => "✅ 已收到，"@ + who + "超过约 10 秒会主动同步进度。\n\n但重启恢复信息保存失败："@ + w
                + "\n请保持 X-Ray 开启。"@,
            None => "✅ 已收到，"@ + who + "超过约 10 秒会主动同步进度；也可发送 /status 查看，/stop 停止。"@,
        }
    }
}

/// The reply to a prompt that a turn took up. `warning` is why the state
/// needed to resume after a restart could not be saved, if it could not.
pub fn acknowledgement(desktop: bool, steered: bool, warning: Option<&str>) -> (r: String)
    ensures
        r@ == acknowledgement_text(desktop, steered, opt_str_view(warning)),
{
    if desktop && steered {
        return "✅ 已追加到 Codex Desktop 正在执行的原回合，我会继续同步进度。".to_owned();
    }
    let who = if desktop {
        "Codex Desktop 原任务正在处理。"
    } else {
        "Codex 正在处理。"
    };
    let mut out = "✅ 已收到，".to_owned();
    out.append(who);
    match warning {
        Some(w) => {
            out.append("超过约 10 秒会主动同步进度。\n\n但重启恢复信息保存失败：");
            out.append(w);
            out.append("\n请保持 X-Ray 开启。");
        },
        None => {
            out.append("超过约 10 秒会主动同步进度；也可发送 /status 查看，/stop 停止。");
        },
    }
    out
}

/// The longest agent preview the channel keeps, in characters.
pub const MAX_AGENT_PREVIEW_CHARS: usize = 8_000;

/// The last `n` characters of `s`.
pub open spec fn last_chars(s: Seq<char>, n: nat) -> Seq<char> {
    if s.len() > n {
        s.subrange(s.len() - n, s.len() as int)
    } else {
        s
    }
}

/// Whether the monitor of `turn_id` should go on: the channel still waits for
/// that turn's reply.
pub fn still_expected(state: &ControlState, turn_id: &str) -> (r: bool)
    ensures
        r == (opt_string_view(state.pending_turn_id) == Some(turn_id@)),
{
    match &state.pending_turn_id {
        Some(t) => str_eq(t.as_str(), turn_id),
        None => false,
    }
}

/// Whether Desktop's view carries an approval the channel has not announced.
pub open spec fn new_approval(s: ControlState, view: DesktopThreadView) -> bool {
    match view.pending_request {
        Some(req) => match s.pending_approval {
            Some(a) => a.request_id@ != req.request_id@,
            None => true,
        },
        None => false,
    }
}

/// The control state after Desktop's view of the task is taken in.
pub open spec fn view_applied(n: ControlState, o: ControlState, view: DesktopThreadView, homes: Seq<Seq<char>>) -> bool {
    &&& opt_string_view(n.active_turn_id) == opt_string_view(view.active_turn_id)
    &&& n.agent_preview@ == match view.agent_preview {
        Some(p) => last_chars(p@, MAX_AGENT_PREVIEW_CHARS as nat),
        None => o.agent_preview@,
    }
    &&& match view.pending_request {
        Some(req) => n.pending_approval matches Some(a) && a.request_id@ == req.request_id@ && a.method@ == req.method@
            && a.kind@ == approval_kind_text(req.method@) && a.summary@ == approval_summary_text(
            req.method@,
            req.params@,
            homes,
        ),
        None => n.pending_approval is None,
    }
    &&& opt_string_view(n.latest_activity) == if view.pending_request is Some {
        Some("等待微信审批"@)
    } else if view.agent_preview is Some {
        Some("Codex Desktop 正在生成回复"@)
    } else {
        opt_string_view(o.latest_activity)
    }
    &&& n.attached_thread_id == o.attached_thread_id
    &&& n.attached_thread_title == o.attached_thread_title
    &&& n.control_backend == o.control_backend
    &&& n.pending_turn_id == o.pending_turn_id
    &&& n.state == o.state
}

/// Takes in Desktop's view of the task; says whether it brings an approval
/// that has not been announced yet.
pub fn apply_desktop_view(state: &mut ControlState, view: &DesktopThreadView, homes: &[String]) -> (r: bool)
    ensures
        r == new_approval(*old(state), *view),
        view_applied(*final(state), *old(state), *view, strings_view(homes@)),
{
    let pending = match &view.pending_request {
        Some(req) => Some(pending_approval_of(req, homes)),
        None => None,
    };
    let fresh = match (&pending, &state.pending_approval) {
        (Some(candidate), Some(current)) => !current.request_id.same(&candidate.request_id),
        (Some(_), None) => true,
        _ => false,
    };
    state.active_turn_id = view.active_turn_id.clone();
    match &view.agent_preview {
        Some(preview) => {
            let mut kept = preview.clone();
            crate::remote::trim_front_chars(&mut kept, MAX_AGENT_PREVIEW_CHARS);
            state.agent_preview = kept;
            state.latest_activity = Some("Codex Desktop 正在生成回复".to_owned());
        },
        None => {},
    }
    let waiting = pending.is_some();
    state.pending_approval = pending;
    if waiting {
        state.latest_activity = Some("等待微信审批".to_owned());
    }
    fresh
}

pub open spec fn approval_notice_text(kind: Seq<char>, summary: Seq<char>) -> Seq<char> {
    "⚠️ Codex Desktop 原任务需要你确认\n类型："@ + kind + "\n"@ + summary + "\n\n回复 /approve 批准，或 /deny 拒绝。"@
}

/// The WeChat notice of an approval the task waits for.
pub fn approval_notice(approval: &PendingApproval) -> (r: String)
    ensures
        r@ == approval_notice_text(approval.kind@, approval.summary@),
{
    let mut out = "⚠️ Codex Desktop 原任务需要你确认\n类型：".to_owned();
    out.append(approval.kind.as_str());
    out.append("\n");
    out.append(approval.summary.as_str());
    out.append("\n\n回复 /approve 批准，或 /deny 拒绝。");
    out
}

/// What a progress message reports: the task's title, the latest activity,
/// the end of the agent's output, and whether the task runs in Desktop. None
/// while no turn runs or an approval is awaited.
pub open spec fn progress_details(s: ControlState) -> Option<(Seq<char>, Seq<char>, Seq<char>, bool)> {
    if s.active_turn_id is None || s.pending_approval is Some {
        None
    } else {
        Some(
            (
                match s.attached_thread_title {
                    Some(t) => t@,
                    None => "Codex 任务"@,
                },
                match s.latest_activity {
                    Some(a) => a@,
                    None => "Codex 仍在执行"@,
                },
                crate::remote::tail_text(trim_spec(s.agent_preview@), 320),
                s.control_backend@ == "desktop_ipc"@,
            ),
        )
    }
}

/// What a progress message is compared by: the activity and the end of the output.
pub open spec fn progress_signature(activity: Seq<char>, preview: Seq<char>) -> Seq<char> {
    activity + "\n"@ + crate::remote::tail_text(preview, 180)
}

pub open spec fn progress_text(seconds: nat, title: Seq<char>, activity: Seq<char>, preview: Seq<char>, desktop: bool) -> Seq<char> {
    "⏳ 仍在处理中（已运行 "@ + crate::remote::elapsed_text(seconds) + "）\n任务："@ + title + "\n来源："@ + (if desktop {
        "Desktop 原任务"@
    } else {
        "X-Ray 独立任务"@
    }) + "\n进度："@ + activity + (if preview.len() > 0 {
        "\n最新输出："@ + preview
    } else {
        Seq::<char>::empty()
    }) + "\n我会继续跟进；也可以发送 /status 查看详情，/stop 停止。"@
}

/// `r` is the progress message due at `now_ms` (if any), and `n` the pacing
/// after it: a message goes out only when the pacing allows one for what it
/// reports, and then the pacing records it.
pub open spec fn progress_outcome(
    s: ControlState,
    o: crate::remote::ProgressFeedback,
    n: crate::remote::ProgressFeedback,
    now_ms: u64,
    r: Option<Seq<char>>,
) -> bool {
    match progress_details(s) {
        None => r is None && n == o,
        Some((title, activity, preview, desktop)) => {
            let signature = progress_signature(activity, preview);
            if o.should_send_spec(now_ms, signature) {
                &&& r == Some(
                    progress_text(
                        (crate::remote::elapsed(now_ms, o.started_at_ms) / 1000) as nat,
                        title,
                        activity,
                        preview,
                        desktop,
                    ),
                )
                &&& n.started_at_ms == o.started_at_ms
                &&& n.last_sent_at_ms == Some(now_ms)
                &&& n.last_signature@ == signature
            } else {
                r is None && n == o
            }
        },
    }
}

/// The progress message due at `now_ms` while a turn runs, if any.
pub fn progress_message(state: &ControlState, feedback: &mut crate::remote::ProgressFeedback, now_ms: u64) -> (r: Option<String>)
    ensures
        progress_outcome(*state, *old(feedback), *final(feedback), now_ms, opt_string_view(r)),
{
    if state.active_turn_id.is_none() || state.pending_approval.is_some() {
        return None;
    }
    let title: &str = match &state.attached_thread_title {
        Some(t) => t.as_str(),
        None => "Codex 任务",
    };
    let activity: &str = match &state.latest_activity {
        Some(a) => a.as_str(),
        None => "Codex 仍在执行",
    };
    let preview = crate::remote::tail_chars(str_trim(state.agent_preview.as_str()), 320);
    let mut signature = activity.to_owned();
    signature.append("\n");
    let end = crate::remote::tail_chars(preview.as_str(), 180);
    signature.append(end.as_str());
    if !feedback.should_send(now_ms, signature.as_str()) {
        return None;
    }
    let ghost sig = signature@;
    feedback.mark_sent(now_ms, signature);
    let seconds = now_ms.saturating_sub(feedback.started_at_ms) / 1000;
    assert(seconds as nat == (crate::remote::elapsed(now_ms, old(feedback).started_at_ms) / 1000) as nat);
    let elapsed = crate::remote::format_elapsed(seconds);
    let desktop = str_eq(state.control_backend.as_str(), "desktop_ipc");
    let source = if desktop {
        "Desktop 原任务"
    } else {
        "X-Ray 独立任务"
    };
    let mut out = "⏳ 仍在处理中（已运行 ".to_owned();
    out.append(elapsed.as_str());
    out.append("）\n任务：");
    out.append(title);
    out.append("\n来源：");
    out.append(source);
    out.append("\n进度：");
    out.append(activity);
    let ghost head = out@;
    if !preview.as_str().is_empty() {
        out.append("\n最新输出：");
        out.append(preview.as_str());
    }
    let ghost tail = if preview@.len() > 0 {
        "\n最新输出："@ + preview@
    } else {
        Seq::<char>::empty()
    };
    assert(out@ == head + tail);
    out.append("\n我会继续跟进；也可以发送 /status 查看详情，/stop 停止。");
    assert(out@ == progress_text(seconds as nat, title@, activity@, preview@, desktop));
    Some(out)
}

/// What the monitor of a running turn learned.
#[derive(Debug)]
pub enum MonitorEvent {
    /// Desktop sent its view of the task.
    Update(DesktopThreadView),
    /// Nothing arrived in the wait; `session` is what the task's log says of
    /// the turn, if it says anything.
    Quiet(Option<crate::remote::SessionTurnOutcome>),
    /// Reading from Desktop failed with `error`; `session` as above.
    Broken { error: String, session: Option<crate::remote::SessionTurnOutcome> },
    /// The background reader itself failed with `error`; `session` as above.
    Crashed { error: String, session: Option<crate::remote::SessionTurnOutcome> },
}

/// What the monitor does next.
#[derive(Debug)]
pub enum MonitorNext {
    /// Wait for the next update.
    Continue,
    /// Reconnect to Desktop; if that fails, call `reconnect_failed` with this error.
    Reconnect(String),
    /// The turn ended: call `deliver_result` with this text and activity, send
    /// the reply, and stop.
    Deliver { fallback: String, activity: String },
    /// The connection is lost: call `connection_lost` with this error, and stop.
    Fail(String),
}

/// The messages to send now, then what comes next.
#[derive(Debug)]
pub struct MonitorAction {
    pub notices: Vec<String>,
    pub next: MonitorNext,
}

/// The reply and activity for a turn that the task's log shows ended.
pub open spec fn session_delivery(o: crate::remote::SessionTurnOutcome) -> (Seq<char>, Seq<char>) {
    match o {
        crate::remote::SessionTurnOutcome::Completed(t) => (t@, "Codex 已完成，结果已从任务日志恢复"@),
        crate::remote::SessionTurnOutcome::Aborted => ("Codex 回合已停止。"@, "Codex 回合已停止，状态已从任务日志恢复"@),
    }
}

/// The reply and activity for a turn that Desktop shows ended.
pub open spec fn desktop_delivery(o: DesktopTurnOutcome, homes: Seq<Seq<char>>) -> (Seq<char>, Seq<char>) {
    match o {
        DesktopTurnOutcome::Completed(t) => (t@, "Codex Desktop 原回合已完成"@),
        DesktopTurnOutcome::Aborted => ("Codex 回合已停止。"@, "Codex Desktop 原回合已停止"@),
        DesktopTurnOutcome::Failed(e) => (
            "Codex 回合失败："@ + crate::sanitize::weixin_system_text(e@, 700, homes),
            "Codex Desktop 原回合失败"@,
        ),
    }
}

pub open spec fn delivers(next: MonitorNext, d: (Seq<char>, Seq<char>)) -> bool {
    next matches MonitorNext::Deliver { fallback, activity } && fallback@ == d.0 && activity@ == d.1
}

pub open spec fn texts(v: Seq<String>) -> Seq<Seq<char>> {
    v.map_values(|t: String| t@)
}

pub open spec fn opt_seq(o: Option<Seq<char>>) -> Seq<Seq<char>> {
    match o {
        Some(t) => seq![t],
        None => Seq::empty(),
    }
}

fn session_next(o: crate::remote::SessionTurnOutcome) -> (r: MonitorNext)
    ensures
        delivers(r, session_delivery(o)),
{
    match o {
        crate::remote::SessionTurnOutcome::Completed(t) => MonitorNext::Deliver {
            fallback: t,
            activity: "Codex 已完成，结果已从任务日志恢复".to_owned(),
        },
        crate::remote::SessionTurnOutcome::Aborted => MonitorNext::Deliver {
            fallback: "Codex 回合已停止。".to_owned(),
            activity: "Codex 回合已停止，状态已从任务日志恢复".to_owned(),
        },
    }
}

/// One step of following a running turn. A turn whose end is known (from
/// Desktop or from the task's log) is delivered; otherwise progress goes out
/// only when the pacing allows it, and a broken connection is repaired or
/// reported. A new approval is announced once, before anything else.
pub fn monitor_step(
    state: &mut ControlState,
    feedback: &mut crate::remote::ProgressFeedback,
    event: MonitorEvent,
    now_ms: u64,
    homes: &[String],
) -> (r: MonitorAction)
    ensures
        match event {
            MonitorEvent::Update(view) => {
                &&& view_applied(*final(state), *old(state), view, strings_view(homes@))
                &&& match view.outcome {
                    Some(o) => delivers(r.next, desktop_delivery(o, strings_view(homes@))) && *final(feedback)
                        == *old(feedback) && texts(r.notices@) == (if new_approval(*old(state), view) {
                        seq![approval_notice_text(final(state).pending_approval->Some_0.kind@, final(state).pending_approval->Some_0.summary@)]
                    } else {
                        Seq::empty()
                    }),
                    None => r.next is Continue && exists|p: Option<Seq<char>>| progress_outcome(*final(state), *old(feedback), *final(feedback), now_ms, p)
                        && texts(r.notices@) == (if new_approval(*old(state), view) {
                        seq![approval_notice_text(final(state).pending_approval->Some_0.kind@, final(state).pending_approval->Some_0.summary@)]
                    } else {
                        Seq::empty()
                    }) + opt_seq(p),
                }
            },
            MonitorEvent::Quiet(session) => *final(state) == *old(state) && match session {
                Some(o) => delivers(r.next, session_delivery(o)) && r.notices@.len() == 0 && *final(feedback) == *old(feedback),
                None => r.next is Continue && exists|p: Option<Seq<char>>| progress_outcome(*old(state), *old(feedback), *final(feedback), now_ms, p)
                    && texts(r.notices@) == opt_seq(p),
            },
            MonitorEvent::Broken { error, session } => *final(state) == *old(state) && *final(feedback) == *old(feedback)
                && r.notices@.len() == 0 && match session {
                Some(o) => delivers(r.next, session_delivery(o)),
                None => r.next matches MonitorNext::Reconnect(e) && e@ == error@,
            },
            MonitorEvent::Crashed { error, session } => *final(state) == *old(state) && *final(feedback) == *old(feedback)
                && r.notices@.len() == 0 && match session {
                Some(o) => delivers(r.next, session_delivery(o)),
                None => r.next matches MonitorNext::Fail(e) && e@ == error@,
            },
        },
{
    match event {
        MonitorEvent::Update(view) => {
            let fresh = apply_desktop_view(state, &view, homes);
            let mut notices: Vec<String> = Vec::new();
            if fresh {
                match &state.pending_approval {
                    Some(a) => notices.push(approval_notice(a)),
                    None => {},
                }
            }
            let ghost first = texts(notices@);
            let DesktopThreadView { active_turn_id: _, agent_preview: _, pending_request: _, outcome } = view;
            let next = match outcome {
                Some(DesktopTurnOutcome::Completed(text)) => MonitorNext::Deliver {
                    fallback: text,
                    activity: "Codex Desktop 原回合已完成".to_owned(),
                },
                Some(DesktopTurnOutcome::Aborted) => MonitorNext::Deliver {
                    fallback: "Codex 回合已停止。".to_owned(),
                    activity: "Codex Desktop 原回合已停止".to_owned(),
                },
                Some(DesktopTurnOutcome::Failed(error)) => {
                    let mut text = "Codex 回合失败：".to_owned();
                    let detail = crate::sanitize::sanitize_weixin_system_text(error.as_str(), 700, homes);
                    text.append(detail.as_str());
                    MonitorNext::Deliver { fallback: text, activity: "Codex Desktop 原回合失败".to_owned() }
                },
                None => {
                    let progress = progress_message(state, feedback, now_ms);
                    match progress {
                        Some(p) => {
                            notices.push(p);
                            assert(texts(notices@) == first + opt_seq(opt_string_view(Some(p))));
                        },
                        None => {
                            assert(texts(notices@) == first + opt_seq(opt_string_view(progress)));
                        },
                    }
                    MonitorNext::Continue
                },
            };
            MonitorAction { notices, next }
        },
        MonitorEvent::Quiet(session) => {
            match session {
                Some(o) => MonitorAction { notices: Vec::new(), next: session_next(o) },
                None => {
                    let mut notices: Vec<String> = Vec::new();
                    let progress = progress_message(state, feedback, now_ms);
                    match progress {
                        Some(p) => {
                            notices.push(p);
                            assert(texts(notices@) == opt_seq(opt_string_view(Some(p))));
                        },
                        None => {
                            assert(texts(notices@) == opt_seq(opt_string_view(progress)));
                        },
                    }
                    MonitorAction { notices, next: MonitorNext::Continue }
                },
            }
        },
        MonitorEvent::Broken { error, session } => {
            match session {
                Some(o) => MonitorAction { notices: Vec::new(), next: session_next(o) },
                None => MonitorAction { notices: Vec::new(), next: MonitorNext::Reconnect(error) },
            }
        },
        MonitorEvent::Crashed { error, session } => {
            match session {
                Some(o) => MonitorAction { notices: Vec::new(), next: session_next(o) },
                None => MonitorAction { notices: Vec::new(), next: MonitorNext::Fail(error) },
            }
        },
    }
}

/// The label a final reply starts with, from the turn's closing activity.
pub open spec fn terminal_label(activity: Seq<char>) -> Seq<char> {
    if crate::text::has_infix(activity, "失败"@) {
        "⚠️ Codex 执行失败"@
    } else if crate::text::has_infix(activity, "停止"@) || crate::text::has_infix(activity, "中断"@) {
        "⏹️ Codex 已停止"@
    } else {
        "✅ Codex 已完成"@
    }
}

/// Closes the turn in the control state and gives the final WeChat reply:
/// the agent's own output when there is any, else `fallback`.
pub fn deliver_result(state: &mut ControlState, fallback: String, activity: String) -> (r: String)
    ensures
        r@ == terminal_label(activity@) + "\n\n"@ + if trim_spec(old(state).agent_preview@).len() > 0 {
            trim_spec(old(state).agent_preview@)
        } else {
            fallback@
        },
        final(state).active_turn_id is None,
        final(state).pending_approval is None,
        opt_string_view(final(state).latest_activity) == Some(activity@),
        final(state).agent_preview@.len() == 0,
        final(state).pending_turn_id == old(state).pending_turn_id,
        final(state).attached_thread_id == old(state).attached_thread_id,
{
    let label = if crate::text::str_contains(activity.as_str(), "失败") {
        "⚠️ Codex 执行失败"
    } else if crate::text::str_contains(activity.as_str(), "停止") || crate::text::str_contains(
        activity.as_str(),
        "中断",
    ) {
        "⏹️ Codex 已停止"
    } else {
        "✅ Codex 已完成"
    };
    let preview = str_trim(state.agent_preview.as_str()).to_owned();
    let text = if !preview.as_str().is_empty() {
        preview
    } else {
        fallback
    };
    state.active_turn_id = None;
    state.pending_approval = None;
    state.latest_activity = Some(activity);
    state.agent_preview = String::new();
    let mut out = label.to_owned();
    out.append("\n\n");
    out.append(text.as_str());
    out
}

/// The final reply reached WeChat: the channel no longer waits for this turn.
pub fn reply_sent(state: &mut ControlState, turn_id: &str)
    ensures
        !(opt_string_view(final(state).pending_turn_id) == Some(turn_id@)),
        opt_string_view(old(state).pending_turn_id) == Some(turn_id@) ==> final(state).pending_thread_id is None
            && final(state).pending_turn_id is None && final(state).pending_reply_user_id is None
            && final(state).pending_reply_context_token is None,
        !(opt_string_view(old(state).pending_turn_id) == Some(turn_id@)) ==> *final(state) == *old(state),
{
    if still_expected(state, turn_id) {
        state.pending_thread_id = None;
        state.pending_turn_id = None;
        state.pending_reply_user_id = None;
        state.pending_reply_context_token = None;
    }
}

/// The final reply could not be sent: the channel is degraded and keeps the
/// turn pending so the reply can be sent again.
pub fn reply_failed(state: &mut ControlState, error: &str)
    ensures
        final(state).state@ == "degraded"@,
        opt_string_view(final(state).last_error) == Some("Codex 已完成，但微信回复失败："@ + error@),
        opt_string_view(final(state).latest_activity) == Some("Codex 已完成，等待重新发送结果"@),
        final(state).pending_turn_id == old(state).pending_turn_id,
{
    state.state = "degraded".to_owned();
    let mut message = "Codex 已完成，但微信回复失败：".to_owned();
    message.append(error);
    state.last_error = Some(message);
    state.latest_activity = Some("Codex 已完成，等待重新发送结果".to_owned());
}

/// The connection to the turn is lost: the channel is degraded, and the
/// WeChat message that says so comes back.
pub fn connection_lost(state: &mut ControlState, error: String, homes: &[String]) -> (r: String)
    ensures
        final(state).active_turn_id is None,
        final(state).pending_approval is None,
        final(state).state@ == "degraded"@,
        opt_string_view(final(state).last_error) == Some(error@),
        opt_string_view(final(state).latest_activity) == Some("Codex 连接中断"@),
        r@ == "⚠️ Codex 任务连接中断\n\n"@ + crate::sanitize::weixin_system_text(error@, 700, strings_view(homes@))
            + "\n\n可以发送 /status 查看当前目标。"@,
{
    let detail = crate::sanitize::sanitize_weixin_system_text(error.as_str(), 700, homes);
    state.active_turn_id = None;
    state.pending_approval = None;
    state.state = "degraded".to_owned();
    state.last_error = Some(error);
    state.latest_activity = Some("Codex 连接中断".to_owned());
    let mut out = "⚠️ Codex 任务连接中断\n\n".to_owned();
    out.append(detail.as_str());
    out.append("\n\n可以发送 /status 查看当前目标。");
    out
}

/// Reconnecting after `error` failed with `reconnect_error`: the connection
/// is lost with both reasons.
pub fn reconnect_failed(state: &mut ControlState, error: &str, reconnect_error: &str, homes: &[String]) -> (r: String)
    ensures
        opt_string_view(final(state).last_error) == Some(error@ + "；"@ + reconnect_error@),
        final(state).state@ == "degraded"@,
        r@ == "⚠️ Codex 任务连接中断\n\n"@ + crate::sanitize::weixin_system_text(
            error@ + "；"@ + reconnect_error@,
            700,
            strings_view(homes@),
        ) + "\n\n可以发送 /status 查看当前目标。"@,
{
    let mut both = error.to_owned();
    both.append("；");
    both.append(reconnect_error);
    connection_lost(state, both, homes)
}

} // verus!
