//! What a WeChat message asks of the remote channel, and the status and
//! attach replies it sends back.
use vstd::prelude::*;
use crate::remote::{
    command_token_text, occupied_text, path_label_text, short_id_text, tail_text, RemoteChannelSnapshot,
};
use crate::text::{is_white, trim_spec};

verus! {

broadcast use vstd::string::group_string_axioms;

/// The reply to `/help`.
pub const REMOTE_HELP_TEXT: &'static str = "X-Ray 微信遥控\n\n通常不需要命令：先在 Mac 的 X-Ray 页面选择控制目标，然后在这里直接发送普通文字。长任务会主动同步处理中状态，完成、停止、失败和审批都会明确提醒。\n\n/list 临时查看并切换任务\n/status 查看当前目标和进度\n/stop 停止当前回合\n/approve 批准操作\n/deny 拒绝操作\n\nX-Ray 不会自动复制或 fork 会话。只有在 X-Ray 页面明确点击“新建并控制”才会创建任务。";

/// The reply to `/attach` without a task number.
pub const MISSING_TASK_NUMBER_TEXT: &'static str = "还缺少任务序号。请先发 /list，然后直接回复序号，例如：1。";

/// The reply to `/new`: tasks are only created from the Mac.
pub const NEW_TASK_TEXT: &'static str = "为避免从微信误建任务，请在 Mac 的 X-Ray「远程通道」页面点击“新建并控制”。建好后，这里直接发送普通文字即可。";

/// The reply when a task selection is cancelled.
pub const SELECTION_CANCELLED_TEXT: &'static str = "已退出任务选择，普通文字仍会发送给当前控制目标。";

/// The reply when a stop was requested.
pub const STOP_REQUESTED_TEXT: &'static str = "已请求停止当前 Codex 回合。";

/// What a WeChat message asks for.
#[derive(Debug, PartialEq, Eq)]
pub enum RemoteCommand {
    Help,
    ListTasks,
    Attach(String),
    AttachWithoutNumber,
    NewTask,
    Status,
    CancelSelection,
    Stop,
    Approve,
    Deny,
    Unknown(String),
    Prompt,
}

/// The model of a command.
pub enum CommandModel {
    Help,
    ListTasks,
    Attach(Seq<char>),
    AttachWithoutNumber,
    NewTask,
    Status,
    CancelSelection,
    Stop,
    Approve,
    Deny,
    Unknown(Seq<char>),
    Prompt,
}

impl View for RemoteCommand {
    type V = CommandModel;

    open spec fn view(&self) -> CommandModel {
        match self {
            RemoteCommand::Help => CommandModel::Help,
            RemoteCommand::ListTasks => CommandModel::ListTasks,
            RemoteCommand::Attach(a) => CommandModel::Attach(a@),
            RemoteCommand::AttachWithoutNumber => CommandModel::AttachWithoutNumber,
            RemoteCommand::NewTask => CommandModel::NewTask,
            RemoteCommand::Status => CommandModel::Status,
            RemoteCommand::CancelSelection => CommandModel::CancelSelection,
            RemoteCommand::Stop => CommandModel::Stop,
            RemoteCommand::Approve => CommandModel::Approve,
            RemoteCommand::Deny => CommandModel::Deny,
            RemoteCommand::Unknown(c) => CommandModel::Unknown(c@),
            RemoteCommand::Prompt => CommandModel::Prompt,
        }
    }
}

/// Index of the first white-space character, or the length.
pub open spec fn first_white(s: Seq<char>) -> int
    decreases s.len(),
{
    if s.len() == 0 {
        0
    } else if is_white(s[0]) {
        0
    } else {
        1 + first_white(s.drop_first())
    }
}

/// The first word of a message.
pub open spec fn first_word(s: Seq<char>) -> Seq<char> {
    s.subrange(0, first_white(s))
}

/// What follows the first word, without surrounding white space.
pub open spec fn argument_text(s: Seq<char>) -> Seq<char> {
    let k = first_white(s);
    if k < s.len() {
        trim_spec(s.subrange(k + 1, s.len() as int))
    } else {
        Seq::empty()
    }
}

pub open spec fn is_one_of(c: Seq<char>, words: Seq<Seq<char>>) -> bool {
    exists|i: int| 0 <= i < words.len() && words[i] == c
}

/// The command a message gives, its first word normalized; `/cancel` leaves
/// a task selection when one is open and otherwise stops the turn.
pub open spec fn command_of(text: Seq<char>, selection_active: bool) -> CommandModel {
    let c = command_token_text(first_word(text));
    let argument = argument_text(text);
    if is_one_of(c, seq!["/help"@, "/start"@, "/?"@, "帮助"@, "help"@]) {
        CommandModel::Help
    } else if is_one_of(c, seq!["/tasks"@, "/task"@, "/list"@, "任务"@, "任务列表"@, "tasks"@]) {
        CommandModel::ListTasks
    } else if is_one_of(c, seq!["/attach"@, "/use"@, "接管"@]) {
        if argument.len() == 0 {
            CommandModel::AttachWithoutNumber
        } else {
            CommandModel::Attach(argument)
        }
    } else if is_one_of(c, seq!["/new"@, "新建"@]) {
        CommandModel::NewTask
    } else if is_one_of(c, seq!["/status"@, "/state"@, "状态"@, "status"@]) {
        CommandModel::Status
    } else if selection_active && is_one_of(c, seq!["/cancel"@, "取消"@]) {
        CommandModel::CancelSelection
    } else if is_one_of(c, seq!["/stop"@, "/cancel"@, "停止"@, "取消"@]) {
        CommandModel::Stop
    } else if is_one_of(c, seq!["/approve"@, "/yes"@, "批准"@, "同意"@]) {
        CommandModel::Approve
    } else if is_one_of(c, seq!["/deny"@, "/no"@, "拒绝"@]) {
        CommandModel::Deny
    } else if c.len() > 0 && c[0] == '/' {
        CommandModel::Unknown(c)
    } else {
        CommandModel::Prompt
    }
}

fn is_white_char(c: char) -> (r: bool)
    ensures
        r == is_white(c),
{
    let u = c as u32;
    (0x09 <= u && u <= 0x0D) || u == 0x20 || u == 0x85 || u == 0xA0 || u == 0x1680 || (0x2000 <= u && u
        <= 0x200A) || u == 0x2028 || u == 0x2029 || u == 0x202F || u == 0x205F || u == 0x3000
}

proof fn lemma_first_white(s: Seq<char>, k: int)
    requires
        0 <= k <= s.len(),
        forall|q: int| 0 <= q < k ==> !is_white(#[trigger] s[q]),
        k < s.len() ==> is_white(s[k]),
    ensures
        first_white(s) == k,
    decreases s.len(),
{
    if s.len() > 0 && k > 0 {
        assert forall|q: int| 0 <= q < k - 1 implies !is_white(#[trigger] s.drop_first()[q]) by {
            assert(s.drop_first()[q] == s[q + 1]);
        }
        lemma_first_white(s.drop_first(), k - 1);
    }
}

fn one_of(c: &str, words: &[&str]) -> (r: bool)
    ensures
        r == is_one_of(c@, words@.map_values(|w: &str| w@)),
{
    let ghost ws = words@.map_values(|w: &str| w@);
    let mut i: usize = 0;
    while i < words.len()
        invariant
            i <= words@.len(),
            ws == words@.map_values(|w: &str| w@),
            forall|q: int| 0 <= q < i ==> ws[q] != c@,
        decreases words@.len() - i,
    {
        assert(ws[i as int] == words@[i as int]@);
        if crate::text::str_eq(c, words[i]) {
            return true;
        }
        i = i + 1;
    }
    false
}

/// The command a WeChat message gives.
pub fn parse_remote_command(text: &str, selection_active: bool) -> (r: RemoteCommand)
    ensures
        r@ == command_of(text@, selection_active),
{
    let chars = crate::text::chars_of(text);
    let mut k: usize = 0;
    while k < chars.len() && !is_white_char(chars[k])
        invariant
            k <= chars@.len(),
            chars@ == text@,
            forall|q: int| 0 <= q < k ==> !is_white(#[trigger] chars@[q]),
        decreases chars@.len() - k,
    {
        k = k + 1;
    }
    proof {
        lemma_first_white(text@, k as int);
    }
    let word = crate::text::string_of_range(chars.as_slice(), 0, k);
    let rest = if k < chars.len() {
        crate::text::string_of_range(chars.as_slice(), k + 1, chars.len())
    } else {
        String::new()
    };
    let argument = crate::text::owned(crate::text::str_trim(rest.as_str()));
    proof {
        if k >= chars.len() {
            assert(trim_spec(Seq::<char>::empty()) =~= Seq::<char>::empty()) by {
                assert(crate::text::first_solid(Seq::<char>::empty()) == 0);
            }
        }
    }
    let c = crate::remote::normalize_command_token(word.as_str());
    let cs = c.as_str();
    let help: [&str; 5] = ["/help", "/start", "/?", "帮助", "help"];
    let list: [&str; 6] = ["/tasks", "/task", "/list", "任务", "任务列表", "tasks"];
    let attach: [&str; 3] = ["/attach", "/use", "接管"];
    let new_task: [&str; 2] = ["/new", "新建"];
    let status: [&str; 4] = ["/status", "/state", "状态", "status"];
    let cancel: [&str; 2] = ["/cancel", "取消"];
    let stop: [&str; 4] = ["/stop", "/cancel", "停止", "取消"];
    let approve: [&str; 4] = ["/approve", "/yes", "批准", "同意"];
    let deny: [&str; 3] = ["/deny", "/no", "拒绝"];
    assert(help@.map_values(|w: &str| w@) =~= seq!["/help"@, "/start"@, "/?"@, "帮助"@, "help"@]);
    assert(list@.map_values(|w: &str| w@) =~= seq!["/tasks"@, "/task"@, "/list"@, "任务"@, "任务列表"@, "tasks"@]);
    assert(attach@.map_values(|w: &str| w@) =~= seq!["/attach"@, "/use"@, "接管"@]);
    assert(new_task@.map_values(|w: &str| w@) =~= seq!["/new"@, "新建"@]);
    assert(status@.map_values(|w: &str| w@) =~= seq!["/status"@, "/state"@, "状态"@, "status"@]);
    assert(cancel@.map_values(|w: &str| w@) =~= seq!["/cancel"@, "取消"@]);
    assert(stop@.map_values(|w: &str| w@) =~= seq!["/stop"@, "/cancel"@, "停止"@, "取消"@]);
    assert(approve@.map_values(|w: &str| w@) =~= seq!["/approve"@, "/yes"@, "批准"@, "同意"@]);
    assert(deny@.map_values(|w: &str| w@) =~= seq!["/deny"@, "/no"@, "拒绝"@]);
    if one_of(cs, &help) {
        RemoteCommand::Help
    } else if one_of(cs, &list) {
        RemoteCommand::ListTasks
    } else if one_of(cs, &attach) {
        if argument.as_str().is_empty() {
            RemoteCommand::AttachWithoutNumber
        } else {
            RemoteCommand::Attach(argument)
        }
    } else if one_of(cs, &new_task) {
        RemoteCommand::NewTask
    } else if one_of(cs, &status) {
        RemoteCommand::Status
    } else if selection_active && one_of(cs, &cancel) {
        RemoteCommand::CancelSelection
    } else if one_of(cs, &stop) {
        RemoteCommand::Stop
    } else if one_of(cs, &approve) {
        RemoteCommand::Approve
    } else if one_of(cs, &deny) {
        RemoteCommand::Deny
    } else {
        let cc = crate::text::chars_of(cs);
        if cc.len() > 0 && cc[0] == '/' {
            RemoteCommand::Unknown(c)
        } else {
            RemoteCommand::Prompt
        }
    }
}


/// Lines joined by line feeds.
pub open spec fn lines_text(lines: Seq<Seq<char>>) -> Seq<char>
    decreases lines.len(),
{
    if lines.len() == 0 {
        Seq::empty()
    } else if lines.len() == 1 {
        lines[0]
    } else {
        lines_text(lines.drop_last()) + "\n"@ + lines.last()
    }
}

pub open spec fn opt_text(v: Option<String>) -> Option<Seq<char>> {
    match v {
        Some(s) => Some(s@),
        None => None,
    }
}

pub open spec fn state_label(state: Seq<char>) -> Seq<char> {
    if state == "connected"@ {
        "已连接"@
    } else if state == "stopped"@ {
        "已暂停"@
    } else if state == "degraded"@ {
        "连接异常"@
    } else if state == "login_required"@ {
        "需要重新扫码"@
    } else {
        state
    }
}

pub open spec fn control_label(ready: bool, backend: Seq<char>) -> Seq<char> {
    if !ready {
        "暂不可控制（未创建副本）"@
    } else if backend == "desktop_ipc"@ {
        "Codex Desktop 原任务（IPC）"@
    } else if backend == "xray_app_server"@ {
        "X-Ray 独立 App Server 任务"@
    } else {
        "X-Ray 已建立控制"@
    }
}

pub open spec fn opt_line(v: Option<Seq<char>>, line: spec_fn(Seq<char>) -> Seq<char>) -> Seq<Seq<char>> {
    match v {
        Some(x) => seq![line(x)],
        None => Seq::empty(),
    }
}

/// The status reply's opening lines: channel state, task, ID and folder.
pub open spec fn status_head(s: RemoteChannelSnapshot) -> Seq<Seq<char>> {
    seq!["微信通道："@ + state_label(s.state@)]
        + opt_line(opt_text(s.attached_thread_title), |t: Seq<char>| "任务："@ + t)
        + opt_line(opt_text(s.attached_thread_id), |t: Seq<char>| "ID："@ + short_id_text(t))
        + opt_line(opt_text(s.attached_cwd), |t: Seq<char>| "目录："@ + path_label_text(t))
}

/// The status reply's middle lines: control, running turn, progress and
/// latest output.
pub open spec fn status_middle(s: RemoteChannelSnapshot) -> Seq<Seq<char>> {
    let turn_lines = match opt_text(s.active_turn_id) {
        Some(t) => seq!["回合："@ + short_id_text(t) + "（运行中）"@, "主动反馈：已开启（自动限频）"@],
        None => Seq::empty(),
    };
    seq!["控制："@ + control_label(s.control_ready, s.control_backend@)]
        + turn_lines
        + opt_line(opt_text(s.latest_activity), |t: Seq<char>| "进度："@ + t)
        + opt_line(opt_text(s.agent_preview), |t: Seq<char>| "\n最新输出：\n"@ + tail_text(t, 700))
}

/// The status reply's closing lines: pending approval and what to do next.
pub open spec fn status_tail(s: RemoteChannelSnapshot) -> Seq<Seq<char>> {
    let next = if s.attached_thread_id is None {
        seq!["下一步：请在 X-Ray 页面选择控制目标；人在外面时也可发送 /list 临时切换。"@]
    } else if !s.control_ready {
        seq!["下一步："@ + occupied_text()]
    } else if s.active_turn_id is None {
        seq!["下一步：直接发送普通文字即可控制 Codex。"@]
    } else {
        Seq::empty()
    };
    (if s.pending_approval is Some {
        seq!["等待审批：使用 /approve 或 /deny"@]
    } else {
        Seq::empty()
    }) + next
}

/// The lines of the status reply.
pub open spec fn status_lines(s: RemoteChannelSnapshot) -> Seq<Seq<char>> {
    status_head(s) + status_middle(s) + status_tail(s)
}

pub open spec fn line_texts(lines: Seq<String>) -> Seq<Seq<char>> {
    lines.map_values(|l: String| l@)
}

fn add_line(lines: &mut Vec<String>, line: String)
    ensures
        line_texts(final(lines)@) == line_texts(old(lines)@).push(line@),
{
    let ghost l = line@;
    lines.push(line);
    assert(line_texts(lines@) =~= line_texts(old(lines)@).push(l));
}

fn prefixed(prefix: &str, text: &str) -> (r: String)
    ensures
        r@ == prefix@ + text@,
{
    crate::text::concat(prefix, text)
}

fn head_lines(s: &RemoteChannelSnapshot) -> (r: Vec<String>)
    ensures
        line_texts(r@) == status_head(*s),
{
    let st = s.state.as_str();
    let label = if crate::text::str_eq(st, "connected") {
        "已连接"
    } else if crate::text::str_eq(st, "stopped") {
        "已暂停"
    } else if crate::text::str_eq(st, "degraded") {
        "连接异常"
    } else if crate::text::str_eq(st, "login_required") {
        "需要重新扫码"
    } else {
        st
    };
    let mut lines: Vec<String> = Vec::new();
    add_line(&mut lines, prefixed("微信通道：", label));
    if let Some(title) = &s.attached_thread_title {
        add_line(&mut lines, prefixed("任务：", title.as_str()));
    }
    if let Some(id) = &s.attached_thread_id {
        add_line(&mut lines, prefixed("ID：", crate::remote::short_id(id.as_str())));
    }
    if let Some(cwd) = &s.attached_cwd {
        let label = crate::remote::remote_path_label(cwd.as_str());
        add_line(&mut lines, prefixed("目录：", label.as_str()));
    }
    assert(line_texts(lines@) =~= status_head(*s));
    lines
}

fn middle_lines(s: &RemoteChannelSnapshot) -> (r: Vec<String>)
    ensures
        line_texts(r@) == status_middle(*s),
{
    let control = if !s.control_ready {
        "暂不可控制（未创建副本）"
    } else if crate::text::str_eq(s.control_backend.as_str(), "desktop_ipc") {
        "Codex Desktop 原任务（IPC）"
    } else if crate::text::str_eq(s.control_backend.as_str(), "xray_app_server") {
        "X-Ray 独立 App Server 任务"
    } else {
        "X-Ray 已建立控制"
    };
    let mut lines: Vec<String> = Vec::new();
    add_line(&mut lines, prefixed("控制：", control));
    if let Some(turn) = &s.active_turn_id {
        let head = prefixed("回合：", crate::remote::short_id(turn.as_str()));
        add_line(&mut lines, crate::text::concat(head.as_str(), "（运行中）"));
        add_line(&mut lines, crate::text::owned("主动反馈：已开启（自动限频）"));
    }
    if let Some(activity) = &s.latest_activity {
        add_line(&mut lines, prefixed("进度：", activity.as_str()));
    }
    if let Some(preview) = &s.agent_preview {
        let tail = crate::remote::tail_chars(preview.as_str(), 700);
        add_line(&mut lines, prefixed("\n最新输出：\n", tail.as_str()));
    }
    assert(line_texts(lines@) =~= status_middle(*s));
    lines
}

fn tail_lines(s: &RemoteChannelSnapshot) -> (r: Vec<String>)
    ensures
        line_texts(r@) == status_tail(*s),
{
    let mut lines: Vec<String> = Vec::new();
    if s.pending_approval.is_some() {
        add_line(&mut lines, crate::text::owned("等待审批：使用 /approve 或 /deny"));
    }
    if s.attached_thread_id.is_none() {
        add_line(&mut lines, crate::text::owned("下一步：请在 X-Ray 页面选择控制目标；人在外面时也可发送 /list 临时切换。"));
    } else if !s.control_ready {
        add_line(&mut lines, prefixed("下一步：", crate::remote::occupied_weixin_message()));
    } else if s.active_turn_id.is_none() {
        add_line(&mut lines, crate::text::owned("下一步：直接发送普通文字即可控制 Codex。"));
    }
    assert(line_texts(lines@) =~= status_tail(*s));
    lines
}

/// Lines joined by line feeds.
pub fn join_lines(lines: &Vec<String>) -> (r: String)
    ensures
        r@ == lines_text(line_texts(lines@)),
{
    let mut out = String::new();
    let mut k: usize = 0;
    while k < lines.len()
        invariant
            k <= lines@.len(),
            out@ == lines_text(line_texts(lines@).take(k as int)),
        decreases lines@.len() - k,
    {
        let ghost prefix = line_texts(lines@).take(k + 1);
        assert(prefix.drop_last() =~= line_texts(lines@).take(k as int));
        assert(prefix.last() == lines@[k as int]@);
        if k > 0 {
            out.append("\n");
        } else {
            assert(line_texts(lines@).take(0) =~= Seq::<Seq<char>>::empty());
        }
        out.append(lines[k].as_str());
        k = k + 1;
    }
    assert(line_texts(lines@).take(k as int) =~= line_texts(lines@));
    out
}

/// The status reply for the channel as the snapshot shows it.
pub fn status_text(s: &RemoteChannelSnapshot) -> (r: String)
    ensures
        r@ == lines_text(status_lines(*s)),
{
    let mut lines = head_lines(s);
    let mut middle = middle_lines(s);
    let mut tail = tail_lines(s);
    let ghost (a, b, c) = (line_texts(lines@), line_texts(middle@), line_texts(tail@));
    lines.append(&mut middle);
    lines.append(&mut tail);
    assert(line_texts(lines@) =~= a + b + c);
    join_lines(&lines)
}

/// The reply after attaching a task: its title, its folder and how it is
/// controlled.
pub open spec fn attach_reply_text(s: RemoteChannelSnapshot) -> Seq<char> {
    let title = match opt_text(s.attached_thread_title) {
        Some(t) => t,
        None => "Codex 任务"@,
    };
    let folder = match opt_text(s.attached_cwd) {
        Some(c) => path_label_text(c),
        None => "未知目录"@,
    };
    let mode = if s.control_ready {
        if s.control_backend@ == "desktop_ipc"@ {
            "已连接 Codex Desktop 中的同一个原任务。现在直接发送普通文字即可。"@
        } else {
            "已选为 X-Ray 独立控制目标。现在直接发送普通文字即可。"@
        }
    } else {
        occupied_text()
    };
    title + "\n"@ + folder + "\n"@ + mode
}

/// The reply after attaching a task.
pub fn attach_reply(s: &RemoteChannelSnapshot) -> (r: String)
    ensures
        r@ == attach_reply_text(*s),
{
    let title = match &s.attached_thread_title {
        Some(t) => t.clone(),
        None => crate::text::owned("Codex 任务"),
    };
    let folder = match &s.attached_cwd {
        Some(c) => crate::remote::remote_path_label(c.as_str()),
        None => crate::text::owned("未知目录"),
    };
    let mode = if s.control_ready {
        if crate::text::str_eq(s.control_backend.as_str(), "desktop_ipc") {
            "已连接 Codex Desktop 中的同一个原任务。现在直接发送普通文字即可。"
        } else {
            "已选为 X-Ray 独立控制目标。现在直接发送普通文字即可。"
        }
    } else {
        crate::remote::occupied_weixin_message()
    };
    let mut out = title;
    out.append("\n");
    out.append(folder.as_str());
    out.append("\n");
    out.append(mode);
    out
}

} // verus!

verus! {

/// A message whose first word is `/status`, `/state`, `状态` or `status`
/// (after normalization) asks for the status, whatever follows and whether or
/// not a task selection is open.
pub proof fn law_status_words_ask_for_status(text: Seq<char>, selection_active: bool)
    requires
        ({
            let c = command_token_text(first_word(text));
            c == "/status"@ || c == "/state"@ || c == "状态"@ || c == "status"@
        }),
    ensures
        command_of(text, selection_active) == CommandModel::Status,
{
    let c = command_token_text(first_word(text));
    reveal_strlit("/status");
    reveal_strlit("/state");
    reveal_strlit("状态");
    reveal_strlit("status");
    reveal_strlit("/help");
    reveal_strlit("/start");
    reveal_strlit("/?");
    reveal_strlit("帮助");
    reveal_strlit("help");
    reveal_strlit("/tasks");
    reveal_strlit("/task");
    reveal_strlit("/list");
    reveal_strlit("任务");
    reveal_strlit("任务列表");
    reveal_strlit("tasks");
    reveal_strlit("/attach");
    reveal_strlit("/use");
    reveal_strlit("接管");
    reveal_strlit("/new");
    reveal_strlit("新建");
    let help = seq!["/help"@, "/start"@, "/?"@, "帮助"@, "help"@];
    let tasks = seq!["/tasks"@, "/task"@, "/list"@, "任务"@, "任务列表"@, "tasks"@];
    let attach = seq!["/attach"@, "/use"@, "接管"@];
    let new = seq!["/new"@, "新建"@];
    let status = seq!["/status"@, "/state"@, "状态"@, "status"@];
    assert forall|i: int| 0 <= i < help.len() implies help[i] != c by {
        assert(help[i].len() != c.len() || help[i][0] != c[0] || help[i][1] != c[1] || help[i][4] != c[4]);
    }
    assert forall|i: int| 0 <= i < tasks.len() implies tasks[i] != c by {
        assert(tasks[i].len() != c.len() || tasks[i][0] != c[0] || tasks[i][1] != c[1]);
    }
    assert forall|i: int| 0 <= i < attach.len() implies attach[i] != c by {
        assert(attach[i].len() != c.len() || attach[i][0] != c[0] || attach[i][1] != c[1]);
    }
    assert forall|i: int| 0 <= i < new.len() implies new[i] != c by {
        assert(new[i].len() != c.len() || new[i][0] != c[0]);
    }
    assert(!is_one_of(c, help));
    assert(!is_one_of(c, tasks));
    assert(!is_one_of(c, attach));
    assert(!is_one_of(c, new));
    if c == "/status"@ {
        assert(status[0] == c);
    } else if c == "/state"@ {
        assert(status[1] == c);
    } else if c == "状态"@ {
        assert(status[2] == c);
    } else {
        assert(status[3] == c);
    }
    assert(is_one_of(c, status));
}

} // verus!

verus! {

/// `c` is none of `words`: each differs from it in length or in one of its
/// first five characters.
proof fn lemma_not_one_of(c: Seq<char>, words: Seq<Seq<char>>)
    requires
        forall|i: int|
            0 <= i < words.len() ==> (#[trigger] words[i]).len() != c.len() || words[i][0] != c[0] || words[i][1]
                != c[1] || words[i][2] != c[2] || words[i][3] != c[3] || words[i][4] != c[4],
    ensures
        !is_one_of(c, words),
{
}

/// Every command word, spelled out.
proof fn lemma_command_words()
    ensures
        "/help"@ == seq!['/', 'h', 'e', 'l', 'p'],
        "/start"@ == seq!['/', 's', 't', 'a', 'r', 't'],
        "/?"@ == seq!['/', '?'],
        "帮助"@ == seq!['帮', '助'],
        "help"@ == seq!['h', 'e', 'l', 'p'],
        "/tasks"@ == seq!['/', 't', 'a', 's', 'k', 's'],
        "/task"@ == seq!['/', 't', 'a', 's', 'k'],
        "/list"@ == seq!['/', 'l', 'i', 's', 't'],
        "任务"@ == seq!['任', '务'],
        "任务列表"@ == seq!['任', '务', '列', '表'],
        "tasks"@ == seq!['t', 'a', 's', 'k', 's'],
        "/attach"@ == seq!['/', 'a', 't', 't', 'a', 'c', 'h'],
        "/use"@ == seq!['/', 'u', 's', 'e'],
        "接管"@ == seq!['接', '管'],
        "/new"@ == seq!['/', 'n', 'e', 'w'],
        "新建"@ == seq!['新', '建'],
        "/status"@ == seq!['/', 's', 't', 'a', 't', 'u', 's'],
        "/state"@ == seq!['/', 's', 't', 'a', 't', 'e'],
        "状态"@ == seq!['状', '态'],
        "status"@ == seq!['s', 't', 'a', 't', 'u', 's'],
        "/cancel"@ == seq!['/', 'c', 'a', 'n', 'c', 'e', 'l'],
        "取消"@ == seq!['取', '消'],
        "/stop"@ == seq!['/', 's', 't', 'o', 'p'],
        "停止"@ == seq!['停', '止'],
        "/approve"@ == seq!['/', 'a', 'p', 'p', 'r', 'o', 'v', 'e'],
        "/yes"@ == seq!['/', 'y', 'e', 's'],
        "批准"@ == seq!['批', '准'],
        "同意"@ == seq!['同', '意'],
        "/deny"@ == seq!['/', 'd', 'e', 'n', 'y'],
        "/no"@ == seq!['/', 'n', 'o'],
        "拒绝"@ == seq!['拒', '绝'],
{
    reveal_strlit("/help");
    reveal_strlit("/start");
    reveal_strlit("/?");
    reveal_strlit("帮助");
    reveal_strlit("help");
    reveal_strlit("/tasks");
    reveal_strlit("/task");
    reveal_strlit("/list");
    reveal_strlit("任务");
    reveal_strlit("任务列表");
    reveal_strlit("tasks");
    reveal_strlit("/attach");
    reveal_strlit("/use");
    reveal_strlit("接管");
    reveal_strlit("/new");
    reveal_strlit("新建");
    reveal_strlit("/status");
    reveal_strlit("/state");
    reveal_strlit("状态");
    reveal_strlit("status");
    reveal_strlit("/cancel");
    reveal_strlit("取消");
    reveal_strlit("/stop");
    reveal_strlit("停止");
    reveal_strlit("/approve");
    reveal_strlit("/yes");
    reveal_strlit("批准");
    reveal_strlit("同意");
    reveal_strlit("/deny");
    reveal_strlit("/no");
    reveal_strlit("拒绝");
}

/// `/help`, `/start`, `/?`, `帮助` or `help` as the first word asks for help.
pub proof fn law_help_words_ask_for_help(text: Seq<char>, selection_active: bool)
    requires
        ({
            let c = command_token_text(first_word(text));
            c == "/help"@ || c == "/start"@ || c == "/?"@ || c == "帮助"@ || c == "help"@
        }),
    ensures
        command_of(text, selection_active) == CommandModel::Help,
{
    let c = command_token_text(first_word(text));
    lemma_command_words();
    if c == "/help"@ {
        assert(seq!["/help"@, "/start"@, "/?"@, "帮助"@, "help"@][0] == c);
    }
    if c == "/start"@ {
        assert(seq!["/help"@, "/start"@, "/?"@, "帮助"@, "help"@][1] == c);
    }
    if c == "/?"@ {
        assert(seq!["/help"@, "/start"@, "/?"@, "帮助"@, "help"@][2] == c);
    }
    if c == "帮助"@ {
        assert(seq!["/help"@, "/start"@, "/?"@, "帮助"@, "help"@][3] == c);
    }
    if c == "help"@ {
        assert(seq!["/help"@, "/start"@, "/?"@, "帮助"@, "help"@][4] == c);
    }
}

/// `/tasks`, `/task`, `/list`, `任务`, `任务列表` or `tasks` as the first word asks
/// for the task list.
pub proof fn law_task_words_list_tasks(text: Seq<char>, selection_active: bool)
    requires
        ({
            let c = command_token_text(first_word(text));
            c == "/tasks"@ || c == "/task"@ || c == "/list"@ || c == "任务"@ || c == "任务列表"@ || c == "tasks"@
        }),
    ensures
        command_of(text, selection_active) == CommandModel::ListTasks,
{
    let c = command_token_text(first_word(text));
    lemma_command_words();
    lemma_not_one_of(c, seq!["/help"@, "/start"@, "/?"@, "帮助"@, "help"@]);
    if c == "/tasks"@ {
        assert(seq!["/tasks"@, "/task"@, "/list"@, "任务"@, "任务列表"@, "tasks"@][0] == c);
    }
    if c == "/task"@ {
        assert(seq!["/tasks"@, "/task"@, "/list"@, "任务"@, "任务列表"@, "tasks"@][1] == c);
    }
    if c == "/list"@ {
        assert(seq!["/tasks"@, "/task"@, "/list"@, "任务"@, "任务列表"@, "tasks"@][2] == c);
    }
    if c == "任务"@ {
        assert(seq!["/tasks"@, "/task"@, "/list"@, "任务"@, "任务列表"@, "tasks"@][3] == c);
    }
    if c == "任务列表"@ {
        assert(seq!["/tasks"@, "/task"@, "/list"@, "任务"@, "任务列表"@, "tasks"@][4] == c);
    }
    if c == "tasks"@ {
        assert(seq!["/tasks"@, "/task"@, "/list"@, "任务"@, "任务列表"@, "tasks"@][5] == c);
    }
}

/// `/attach`, `/use` or `接管` as the first word picks the task the rest of
/// the message names, or asks for a number when nothing follows.
pub proof fn law_attach_words_pick_a_task(text: Seq<char>, selection_active: bool)
    requires
        ({
            let c = command_token_text(first_word(text));
            c == "/attach"@ || c == "/use"@ || c == "接管"@
        }),
    ensures
        command_of(text, selection_active) == if argument_text(text).len() == 0 {
            CommandModel::AttachWithoutNumber
        } else {
            CommandModel::Attach(argument_text(text))
        },
{
    let c = command_token_text(first_word(text));
    lemma_command_words();
    lemma_not_one_of(c, seq!["/help"@, "/start"@, "/?"@, "帮助"@, "help"@]);
    lemma_not_one_of(c, seq!["/tasks"@, "/task"@, "/list"@, "任务"@, "任务列表"@, "tasks"@]);
    if c == "/attach"@ {
        assert(seq!["/attach"@, "/use"@, "接管"@][0] == c);
    }
    if c == "/use"@ {
        assert(seq!["/attach"@, "/use"@, "接管"@][1] == c);
    }
    if c == "接管"@ {
        assert(seq!["/attach"@, "/use"@, "接管"@][2] == c);
    }
}

/// `/new` or `新建` as the first word asks for a new task.
pub proof fn law_new_words_ask_for_a_new_task(text: Seq<char>, selection_active: bool)
    requires
        ({
            let c = command_token_text(first_word(text));
            c == "/new"@ || c == "新建"@
        }),
    ensures
        command_of(text, selection_active) == CommandModel::NewTask,
{
    let c = command_token_text(first_word(text));
    lemma_command_words();
    lemma_not_one_of(c, seq!["/help"@, "/start"@, "/?"@, "帮助"@, "help"@]);
    lemma_not_one_of(c, seq!["/tasks"@, "/task"@, "/list"@, "任务"@, "任务列表"@, "tasks"@]);
    lemma_not_one_of(c, seq!["/attach"@, "/use"@, "接管"@]);
    if c == "/new"@ {
        assert(seq!["/new"@, "新建"@][0] == c);
    }
    if c == "新建"@ {
        assert(seq!["/new"@, "新建"@][1] == c);
    }
}

/// While a task selection is open, `/cancel` or `取消` leaves it.
pub proof fn law_cancel_words_leave_an_open_selection(text: Seq<char>, selection_active: bool)
    requires
        ({
            let c = command_token_text(first_word(text));
            c == "/cancel"@ || c == "取消"@
        }),
        selection_active,
    ensures
        command_of(text, selection_active) == CommandModel::CancelSelection,
{
    let c = command_token_text(first_word(text));
    lemma_command_words();
    lemma_not_one_of(c, seq!["/help"@, "/start"@, "/?"@, "帮助"@, "help"@]);
    lemma_not_one_of(c, seq!["/tasks"@, "/task"@, "/list"@, "任务"@, "任务列表"@, "tasks"@]);
    lemma_not_one_of(c, seq!["/attach"@, "/use"@, "接管"@]);
    lemma_not_one_of(c, seq!["/new"@, "新建"@]);
    lemma_not_one_of(c, seq!["/status"@, "/state"@, "状态"@, "status"@]);
    if c == "/cancel"@ {
        assert(seq!["/cancel"@, "取消"@][0] == c);
    }
    if c == "取消"@ {
        assert(seq!["/cancel"@, "取消"@][1] == c);
    }
}

/// `/stop` or `停止` as the first word stops the turn, and so do `/cancel` and
/// `取消` when no task selection is open.
pub proof fn law_stop_words_stop_the_turn(text: Seq<char>, selection_active: bool)
    requires
        ({
            let c = command_token_text(first_word(text));
            c == "/stop"@ || c == "/cancel"@ || c == "停止"@ || c == "取消"@
        }),
        ({
            let c = command_token_text(first_word(text));
            !(selection_active && (c == "/cancel"@ || c == "取消"@))
        }),
    ensures
        command_of(text, selection_active) == CommandModel::Stop,
{
    let c = command_token_text(first_word(text));
    lemma_command_words();
    lemma_not_one_of(c, seq!["/help"@, "/start"@, "/?"@, "帮助"@, "help"@]);
    lemma_not_one_of(c, seq!["/tasks"@, "/task"@, "/list"@, "任务"@, "任务列表"@, "tasks"@]);
    lemma_not_one_of(c, seq!["/attach"@, "/use"@, "接管"@]);
    lemma_not_one_of(c, seq!["/new"@, "新建"@]);
    lemma_not_one_of(c, seq!["/status"@, "/state"@, "状态"@, "status"@]);
    if c == "/stop"@ {
        assert(seq!["/stop"@, "/cancel"@, "停止"@, "取消"@][0] == c);
    }
    if c == "/cancel"@ {
        assert(seq!["/stop"@, "/cancel"@, "停止"@, "取消"@][1] == c);
    }
    if c == "停止"@ {
        assert(seq!["/stop"@, "/cancel"@, "停止"@, "取消"@][2] == c);
    }
    if c == "取消"@ {
        assert(seq!["/stop"@, "/cancel"@, "停止"@, "取消"@][3] == c);
    }
}

/// `/approve`, `/yes`, `批准` or `同意` as the first word approves the pending request.
pub proof fn law_approve_words_approve(text: Seq<char>, selection_active: bool)
    requires
        ({
            let c = command_token_text(first_word(text));
            c == "/approve"@ || c == "/yes"@ || c == "批准"@ || c == "同意"@
        }),
    ensures
        command_of(text, selection_active) == CommandModel::Approve,
{
    let c = command_token_text(first_word(text));
    lemma_command_words();
    lemma_not_one_of(c, seq!["/help"@, "/start"@, "/?"@, "帮助"@, "help"@]);
    lemma_not_one_of(c, seq!["/tasks"@, "/task"@, "/list"@, "任务"@, "任务列表"@, "tasks"@]);
    lemma_not_one_of(c, seq!["/attach"@, "/use"@, "接管"@]);
    lemma_not_one_of(c, seq!["/new"@, "新建"@]);
    lemma_not_one_of(c, seq!["/status"@, "/state"@, "状态"@, "status"@]);
    lemma_not_one_of(c, seq!["/cancel"@, "取消"@]);
    lemma_not_one_of(c, seq!["/stop"@, "/cancel"@, "停止"@, "取消"@]);
    if c == "/approve"@ {
        assert(seq!["/approve"@, "/yes"@, "批准"@, "同意"@][0] == c);
    }
    if c == "/yes"@ {
        assert(seq!["/approve"@, "/yes"@, "批准"@, "同意"@][1] == c);
    }
    if c == "批准"@ {
        assert(seq!["/approve"@, "/yes"@, "批准"@, "同意"@][2] == c);
    }
    if c == "同意"@ {
        assert(seq!["/approve"@, "/yes"@, "批准"@, "同意"@][3] == c);
    }
}

/// `/deny`, `/no` or `拒绝` as the first word denies the pending request.
pub proof fn law_deny_words_deny(text: Seq<char>, selection_active: bool)
    requires
        ({
            let c = command_token_text(first_word(text));
            c == "/deny"@ || c == "/no"@ || c == "拒绝"@
        }),
    ensures
        command_of(text, selection_active) == CommandModel::Deny,
{
    let c = command_token_text(first_word(text));
    lemma_command_words();
    lemma_not_one_of(c, seq!["/help"@, "/start"@, "/?"@, "帮助"@, "help"@]);
    lemma_not_one_of(c, seq!["/tasks"@, "/task"@, "/list"@, "任务"@, "任务列表"@, "tasks"@]);
    lemma_not_one_of(c, seq!["/attach"@, "/use"@, "接管"@]);
    lemma_not_one_of(c, seq!["/new"@, "新建"@]);
    lemma_not_one_of(c, seq!["/status"@, "/state"@, "状态"@, "status"@]);
    lemma_not_one_of(c, seq!["/cancel"@, "取消"@]);
    lemma_not_one_of(c, seq!["/stop"@, "/cancel"@, "停止"@, "取消"@]);
    lemma_not_one_of(c, seq!["/approve"@, "/yes"@, "批准"@, "同意"@]);
    if c == "/deny"@ {
        assert(seq!["/deny"@, "/no"@, "拒绝"@][0] == c);
    }
    if c == "/no"@ {
        assert(seq!["/deny"@, "/no"@, "拒绝"@][1] == c);
    }
    if c == "拒绝"@ {
        assert(seq!["/deny"@, "/no"@, "拒绝"@][2] == c);
    }
}

} // verus!

verus! {

/// `c` is one of the command words.
pub open spec fn listed_command(c: Seq<char>) -> bool {
    ||| is_one_of(c, seq!["/help"@, "/start"@, "/?"@, "帮助"@, "help"@])
    ||| is_one_of(c, seq!["/tasks"@, "/task"@, "/list"@, "任务"@, "任务列表"@, "tasks"@])
    ||| is_one_of(c, seq!["/attach"@, "/use"@, "接管"@])
    ||| is_one_of(c, seq!["/new"@, "新建"@])
    ||| is_one_of(c, seq!["/status"@, "/state"@, "状态"@, "status"@])
    ||| is_one_of(c, seq!["/stop"@, "/cancel"@, "停止"@, "取消"@])
    ||| is_one_of(c, seq!["/approve"@, "/yes"@, "批准"@, "同意"@])
    ||| is_one_of(c, seq!["/deny"@, "/no"@, "拒绝"@])
}

/// A first word that starts with `/` but is no command is reported as an
/// unknown command, with the word itself; any other message that starts with
/// no command word is a prompt for the task.
pub proof fn law_other_messages(text: Seq<char>, selection_active: bool)
    requires
        !listed_command(command_token_text(first_word(text))),
    ensures
        ({
            let c = command_token_text(first_word(text));
            if c.len() > 0 && c[0] == '/' {
                command_of(text, selection_active) == CommandModel::Unknown(c)
            } else {
                command_of(text, selection_active) == CommandModel::Prompt
            }
        }),
{
    let c = command_token_text(first_word(text));
    if selection_active && is_one_of(c, seq!["/cancel"@, "取消"@]) {
        let i = choose|i: int| 0 <= i < 2 && seq!["/cancel"@, "取消"@][i] == c;
        if i == 0 {
            assert(seq!["/stop"@, "/cancel"@, "停止"@, "取消"@][1] == c);
        } else {
            assert(seq!["/stop"@, "/cancel"@, "停止"@, "取消"@][3] == c);
        }
    }
}

} // verus!
