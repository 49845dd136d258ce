//! The WeChat remote channel's own rules: progress pacing, message text,
//! command replies and the task list it shows.
use vstd::prelude::*;
use base64::Engine;
use crate::paths::{file_name, file_name_of};
use crate::json::{Json, JsonValue};
use crate::codex::ThreadMetadata;
use crate::text::{
    chars_of, decimal, decimal_string, has_infix, is_ascii_alnum, signed_decimal,
    signed_decimal_string, str_contains, str_eq, str_trim, string_of_range, trim_spec,
};
use vstd::utf8::{decode_utf8, encode_utf8, is_char_boundary};
use vstd::string::StringSliceAdditionalSpecFns;

verus! {

broadcast use vstd::string::group_string_axioms;

/// No progress message before this many milliseconds of a turn.
pub const PROGRESS_FIRST_FEEDBACK_MS: u64 = 10_000;
/// Changed progress is sent at most this often, in milliseconds.
pub const PROGRESS_MIN_INTERVAL_MS: u64 = 20_000;
/// Unchanged progress is repeated as a heartbeat this often, in milliseconds.
pub const PROGRESS_HEARTBEAT_INTERVAL_MS: u64 = 60_000;

/// Pacing of progress messages during a long turn. Instants are milliseconds
/// on one monotonic clock.
#[derive(Debug)]
pub struct ProgressFeedback {
    pub started_at_ms: u64,
    pub last_sent_at_ms: Option<u64>,
    pub last_signature: String,
}

/// `later - earlier`, or zero when `later` comes first (as `Instant::duration_since`).
pub open spec fn elapsed(later: u64, earlier: u64) -> int {
    if later >= earlier {
        later - earlier
    } else {
        0
    }
}

impl ProgressFeedback {
    pub open spec fn should_send_spec(&self, now_ms: u64, signature: Seq<char>) -> bool {
        if elapsed(now_ms, self.started_at_ms) < PROGRESS_FIRST_FEEDBACK_MS {
            false
        } else {
            match self.last_sent_at_ms {
                None => true,
                Some(last) => {
                    ||| elapsed(now_ms, last) >= PROGRESS_HEARTBEAT_INTERVAL_MS
                    ||| elapsed(now_ms, last) >= PROGRESS_MIN_INTERVAL_MS && signature
                        != self.last_signature@
                },
            }
        }
    }

    pub fn new(now_ms: u64) -> (r: Self)
        ensures
            r.started_at_ms == now_ms,
            r.last_sent_at_ms is None,
            r.last_signature@ == Seq::<char>::empty(),
    {
        ProgressFeedback { started_at_ms: now_ms, last_sent_at_ms: None, last_signature: String::new() }
    }

    pub fn should_send(&self, now_ms: u64, signature: &str) -> (r: bool)
        ensures
            r == self.should_send_spec(now_ms, signature@),
    {
        if now_ms.saturating_sub(self.started_at_ms) < PROGRESS_FIRST_FEEDBACK_MS {
            return false;
        }
        match self.last_sent_at_ms {
            None => true,
            Some(last) => {
                let since_last = now_ms.saturating_sub(last);
                since_last >= PROGRESS_HEARTBEAT_INTERVAL_MS || (since_last
                    >= PROGRESS_MIN_INTERVAL_MS && !str_eq(signature, self.last_signature.as_str()))
            },
        }
    }

    pub fn mark_sent(&mut self, now_ms: u64, signature: String)
        ensures
            final(self).started_at_ms == old(self).started_at_ms,
            final(self).last_sent_at_ms == Some(now_ms),
            final(self).last_signature@ == signature@,
    {
        self.last_sent_at_ms = Some(now_ms);
        self.last_signature = signature;
    }
}

/// Right after a message is sent, the same progress is not sent again before
/// the heartbeat interval has passed.
pub proof fn law_sent_progress_waits_for_heartbeat(
    feedback: ProgressFeedback,
    sent_at: u64,
    now_ms: u64,
    signature: Seq<char>,
)
    requires
        feedback.last_sent_at_ms == Some(sent_at),
        feedback.last_signature@ == signature,
        sent_at <= now_ms,
        now_ms - sent_at < PROGRESS_HEARTBEAT_INTERVAL_MS,
    ensures
        !feedback.should_send_spec(now_ms, signature),
{
}

/// Nothing is sent during the first feedback window of a turn.
pub proof fn law_no_progress_before_first_window(
    feedback: ProgressFeedback,
    now_ms: u64,
    signature: Seq<char>,
)
    requires
        elapsed(now_ms, feedback.started_at_ms) < PROGRESS_FIRST_FEEDBACK_MS,
    ensures
        !feedback.should_send_spec(now_ms, signature),
{
}

pub open spec fn elapsed_text(seconds: nat) -> Seq<char> {
    if seconds < 60 {
        decimal(seconds) + " 秒"@
    } else if seconds % 60 == 0 {
        decimal(seconds / 60) + " 分钟"@
    } else {
        decimal(seconds / 60) + " 分 "@ + decimal(seconds % 60) + " 秒"@
    }
}

/// Human-readable elapsed time of a turn, in whole seconds.
pub fn format_elapsed(seconds: u64) -> (r: String)
    ensures
        r@ == elapsed_text(seconds as nat),
{
    if seconds < 60 {
        let mut out = decimal_string(seconds as u128);
        out.append(" 秒");
        out
    } else {
        let minutes = seconds / 60;
        let remainder = seconds % 60;
        let mut out = decimal_string(minutes as u128);
        if remainder == 0 {
            out.append(" 分钟");
        } else {
            out.append(" 分 ");
            let rest = decimal_string(remainder as u128);
            out.append(rest.as_str());
            out.append(" 秒");
        }
        out
    }
}


pub open spec fn strings_view(v: Seq<String>) -> Seq<Seq<char>> {
    v.map_values(|x: String| x@)
}

/// What `split_text` returns: the message cut into runs of `max_chars`
/// characters, every run full but the last, which is non-empty. An empty message
/// gives one empty chunk; a limit of zero gives an empty chunk and then one
/// chunk per character.
pub open spec fn split_holds(s: Seq<char>, max_chars: nat, r: Seq<Seq<char>>) -> bool {
    if s.len() == 0 {
        r == seq![Seq::<char>::empty()]
    } else if max_chars == 0 {
        &&& r.len() == s.len() + 1
        &&& r[0].len() == 0
        &&& forall|i: int| 0 <= i < s.len() ==> #[trigger] r[i + 1] == seq![s[i]]
    } else {
        &&& r.len() > 0
        &&& r.flatten() == s
        &&& forall|j: int| 0 <= j < r.len() - 1 ==> (#[trigger] r[j]).len() == max_chars
        &&& 0 < r.last().len() <= max_chars
    }
}

/// Cuts a message into chunks of at most `max_chars` characters for WeChat.
pub fn split_text(value: &str, max_chars: usize) -> (r: Vec<String>)
    ensures
        split_holds(value@, max_chars as nat, strings_view(r@)),
{
    let chars = chars_of(value);
    let n = chars.len();
    let mut out: Vec<String> = Vec::new();
    if n == 0 {
        out.push(String::new());
        assert(strings_view(out@) == seq![Seq::<char>::empty()]);
        return out;
    }
    if max_chars == 0 {
        out.push(String::new());
        let mut i: usize = 0;
        while i < n
            invariant
                i <= n == chars@.len(),
                chars@ == value@,
                out@.len() == i + 1,
                out@[0]@.len() == 0,
                forall|k: int| 0 <= k < i ==> #[trigger] out@[k + 1]@ == seq![chars@[k]],
            decreases n - i,
        {
            let piece = string_of_range(chars.as_slice(), i, i + 1);
            assert(chars@.subrange(i as int, i + 1) == seq![chars@[i as int]]);
            out.push(piece);
            i = i + 1;
        }
        return out;
    }
    let mut start: usize = 0;
    loop
        invariant
            start < n == chars@.len(),
            chars@ == value@,
            max_chars > 0,
            strings_view(out@).flatten() == chars@.subrange(0, start as int),
            forall|j: int| 0 <= j < out@.len() ==> (#[trigger] out@[j])@.len() == max_chars,
            out@.len() > 0 || start == 0,
        decreases n - start,
    {
        let end = if n - start > max_chars { start + max_chars } else { n };
        let piece = string_of_range(chars.as_slice(), start, end);
        proof {
            strings_view(out@).lemma_flatten_push(piece@);
            assert(strings_view(out@.push(piece)) == strings_view(out@).push(piece@));
            assert(chars@.subrange(0, start as int) + chars@.subrange(start as int, end as int)
                == chars@.subrange(0, end as int));
        }
        out.push(piece);
        if end == n {
            proof {
                assert(chars@.subrange(0, n as int) == chars@);
                assert forall|j: int| 0 <= j < strings_view(out@).len() - 1 implies (
                #[trigger] strings_view(out@)[j]).len() == max_chars by {}
            }
            return out;
        }
        start = end;
    }
}

/// Keeps only the last `max_chars` characters of `value`.
pub fn trim_front_chars(value: &mut String, max_chars: usize)
    ensures
        old(value)@.len() > max_chars ==> final(value)@ == old(value)@.subrange(
            old(value)@.len() - max_chars,
            old(value)@.len() as int,
        ),
        old(value)@.len() <= max_chars ==> final(value)@ == old(value)@,
{
    let chars = chars_of(value.as_str());
    let count = chars.len();
    if count > max_chars {
        *value = string_of_range(chars.as_slice(), count - max_chars, count);
    }
}

pub open spec fn tail_text(s: Seq<char>, max_chars: nat) -> Seq<char> {
    if s.len() <= max_chars {
        s
    } else {
        "…"@ + s.subrange(s.len() - max_chars, s.len() as int)
    }
}

/// The last `max_chars` characters, marked with an ellipsis when cut.
pub fn tail_chars(value: &str, max_chars: usize) -> (r: String)
    ensures
        r@ == tail_text(value@, max_chars as nat),
{
    let chars = chars_of(value);
    let count = chars.len();
    if count <= max_chars {
        value.to_owned()
    } else {
        let mut out = String::new();
        out.append("…");
        let tail = string_of_range(chars.as_slice(), count - max_chars, count);
        out.append(tail.as_str());
        out
    }
}


/// Levenshtein distance between two character sequences.
pub open spec fn lev(a: Seq<char>, b: Seq<char>) -> nat
    decreases a.len() + b.len(),
{
    if a.len() == 0 {
        b.len()
    } else if b.len() == 0 {
        a.len()
    } else {
        let delete = lev(a.drop_last(), b) + 1;
        let insert = lev(a, b.drop_last()) + 1;
        let change = lev(a.drop_last(), b.drop_last()) + if a.last() == b.last() {
            0nat
        } else {
            1nat
        };
        min_nat(min_nat(delete, insert), change)
    }
}

pub open spec fn min_nat(x: nat, y: nat) -> nat {
    if x <= y {
        x
    } else {
        y
    }
}

pub proof fn lemma_lev_bound(a: Seq<char>, b: Seq<char>)
    ensures
        lev(a, b) <= a.len() + b.len(),
    decreases a.len() + b.len(),
{
    if a.len() > 0 && b.len() > 0 {
        lemma_lev_bound(a.drop_last(), b);
    }
}

/// Number of single-character edits between two commands.
pub fn edit_distance(left: &str, right: &str) -> (r: usize)
    requires
        left@.len() + right@.len() < usize::MAX,
    ensures
        r == lev(left@, right@),
{
    let a = chars_of(left);
    let b = chars_of(right);
    let n = a.len();
    let m = b.len();
    let mut previous: Vec<usize> = Vec::new();
    let mut j: usize = 0;
    while j <= m
        invariant
            j <= m + 1,
            m == b@.len(),
            n + m < usize::MAX,
            previous@.len() == j,
            forall|k: int| 0 <= k < j ==> #[trigger] previous@[k] == lev(
                a@.take(0),
                b@.take(k),
            ),
        decreases m + 1 - j,
    {
        proof {
            assert(a@.take(0).len() == 0);
        }
        previous.push(j);
        j = j + 1;
    }
    let mut i: usize = 0;
    while i < n
        invariant
            i <= n == a@.len(),
            m == b@.len(),
            n + m < usize::MAX,
            previous@.len() == m + 1,
            forall|k: int| 0 <= k <= m ==> #[trigger] previous@[k] == lev(a@.take(i as int), b@.take(k)),
        decreases n - i,
    {
        let mut current: Vec<usize> = Vec::new();
        proof {
            assert(b@.take(0).len() == 0);
            assert(a@.take(i + 1).len() > 0);
        }
        current.push(i + 1);
        let mut k: usize = 0;
        while k < m
            invariant
                i < n == a@.len(),
                k <= m == b@.len(),
                n + m < usize::MAX,
                previous@.len() == m + 1,
                forall|t: int| 0 <= t <= m ==> #[trigger] previous@[t] == lev(
                    a@.take(i as int),
                    b@.take(t),
                ),
                current@.len() == k + 1,
                forall|t: int| 0 <= t <= k ==> #[trigger] current@[t] == lev(
                    a@.take(i + 1),
                    b@.take(t),
                ),
            decreases m - k,
        {
            let ghost ai = a@.take(i + 1);
            let ghost bk = b@.take(k + 1);
            proof {
                assert(ai.drop_last() == a@.take(i as int));
                assert(bk.drop_last() == b@.take(k as int));
                assert(ai.last() == a@[i as int]);
                assert(bk.last() == b@[k as int]);
                lemma_lev_bound(a@.take(i as int), b@.take(k + 1));
                lemma_lev_bound(ai, b@.take(k as int));
                lemma_lev_bound(a@.take(i as int), b@.take(k as int));
            }
            let delete = previous[k + 1] + 1;
            let insert = current[k] + 1;
            let change = previous[k] + if a[i] == b[k] { 0 } else { 1 };
            let best = if delete <= insert { delete } else { insert };
            let best = if best <= change { best } else { change };
            current.push(best);
            k = k + 1;
        }
        previous = current;
        i = i + 1;
    }
    proof {
        assert(a@.take(n as int) == a@);
        assert(b@.take(m as int) == b@);
    }
    previous[m]
}


/// One Codex task as the channel lists it.
#[derive(Debug)]
pub struct RemoteTaskSummary {
    pub id: String,
    pub title: String,
    pub cwd: String,
    pub status: String,
    pub updated_at: i64,
    pub control_mode: String,
}

/// A pending approval as the channel shows it.
#[derive(Debug)]
pub struct RemoteApprovalSnapshot {
    pub kind: String,
    pub summary: String,
    pub requested_at: String,
}

/// The channel's state as the desktop UI shows it.
#[derive(Debug)]
pub struct RemoteChannelSnapshot {
    pub enabled: bool,
    pub state: String,
    pub account_id: Option<String>,
    pub owner_user_id: Option<String>,
    pub qr_svg: Option<String>,
    pub verify_code_required: bool,
    pub attached_thread_id: Option<String>,
    pub attached_thread_title: Option<String>,
    pub attached_cwd: Option<String>,
    pub control_ready: bool,
    pub control_backend: String,
    pub active_turn_id: Option<String>,
    pub latest_activity: Option<String>,
    pub agent_preview: Option<String>,
    pub pending_approval: Option<RemoteApprovalSnapshot>,
    pub last_inbound_at: Option<String>,
    pub last_outbound_at: Option<String>,
    pub last_error: Option<String>,
}

/// The first eight bytes of an ID when they end on a character boundary,
/// else the whole ID.
pub open spec fn short_id_text(s: Seq<char>) -> Seq<char> {
    let b = encode_utf8(s);
    if is_char_boundary(b, 8) {
        decode_utf8(b.subrange(0, 8))
    } else {
        s
    }
}

/// A short form of a task ID for listings.
pub fn short_id(value: &str) -> (r: &str)
    ensures
        r@ == short_id_text(value@),
{
    broadcast use vstd::utf8::encode_utf8_decode_utf8;

    if value.is_char_boundary(8) {
        let (head, _) = value.split_at(8);
        proof {
            vstd::utf8::encode_utf8_decode_utf8(head@);
            assert(encode_utf8(head@) == encode_utf8(value@).subrange(0, 8));
        }
        head
    } else {
        value
    }
}

pub open spec fn path_label_text(path: Seq<char>) -> Seq<char> {
    match file_name_of(path) {
        Some(name) => if trim_spec(name).len() > 0 {
            trim_spec(name)
        } else {
            "未知目录"@
        },
        None => "未知目录"@,
    }
}

/// The last path component only, so that parent directories never reach WeChat.
pub fn remote_path_label(path: &str) -> (r: String)
    ensures
        r@ == path_label_text(path@),
{
    match file_name(path) {
        Some(name) => {
            let trimmed = str_trim(name.as_str());
            if !trimmed.is_empty() {
                trimmed.to_owned()
            } else {
                "未知目录".to_owned()
            }
        },
        None => "未知目录".to_owned(),
    }
}

/// The last component of a path, used as a task title.
pub fn path_title(path: &str) -> (r: Option<String>)
    ensures
        match r {
            Some(t) => file_name_of(path@) == Some(t@),
            None => file_name_of(path@) is None,
        },
{
    file_name(path)
}

pub open spec fn id_char_ok(c: char) -> bool {
    is_ascii_alnum(c) || c == '-' || c == '_'
}

pub open spec fn deep_link_ok(id: Seq<char>) -> bool {
    0 < id.len() <= 256 && forall|i: int| 0 <= i < id.len() ==> id_char_ok(#[trigger] id[i])
}

/// The `codex://` deep link for a task, refused unless the ID is plainly safe.
pub fn codex_thread_deep_link(thread_id: &str) -> (r: Result<String, String>)
    ensures
        r is Ok <==> deep_link_ok(trim_spec(thread_id@)),
        r matches Ok(link) ==> link@ == "codex://threads/"@ + trim_spec(thread_id@),
        r matches Err(e) ==> e@ == "Codex 任务 ID 无法安全用于自动唤醒"@,
{
    broadcast use vstd::utf8::is_ascii_chars_encode_utf8;

    let id = str_trim(thread_id);
    let chars = chars_of(id);
    let mut i: usize = 0;
    let mut all_ok = true;
    while i < chars.len()
        invariant
            i <= chars@.len(),
            chars@ == id@,
            all_ok == forall|k: int| 0 <= k < i ==> id_char_ok(#[trigger] chars@[k]),
        decreases chars@.len() - i,
    {
        let c = chars[i];
        let ok = ('0' <= c && c <= '9') || ('a' <= c && c <= 'z') || ('A' <= c && c <= 'Z')
            || c == '-' || c == '_';
        all_ok = all_ok && ok;
        i = i + 1;
    }
    proof {
        if all_ok {
            assert(vstd::utf8::is_ascii_chars(id@));
            assert(id.spec_bytes().len() == id@.len());
        }
    }
    if chars.len() == 0 || id.len() > 256 || !all_ok {
        proof {
            if all_ok && chars.len() > 0 {
                assert(vstd::utf8::is_ascii_chars(id@));
            }
        }
        return Err("Codex 任务 ID 无法安全用于自动唤醒".to_owned());
    }
    let mut link = "codex://threads/".to_owned();
    link.append(id);
    Ok(link)
}

pub open spec fn identifier_char(c: char) -> char {
    if c == '@' || c == '.' {
        '-'
    } else if is_ascii_alnum(c) || c == '_' || c == '-' {
        c
    } else {
        '-'
    }
}

/// An account ID made safe for file names: trimmed, every character outside
/// ASCII letters, digits, `_` and `-` replaced by `-`.
pub fn normalize_identifier(value: &str) -> (r: String)
    ensures
        r@ == trim_spec(value@).map_values(|c: char| identifier_char(c)),
{
    let chars = chars_of(str_trim(value));
    let mut out = String::new();
    let mut i: usize = 0;
    while i < chars.len()
        invariant
            i <= chars@.len(),
            chars@ == trim_spec(value@),
            out@ == chars@.take(i as int).map_values(|c: char| identifier_char(c)),
        decreases chars@.len() - i,
    {
        let c = chars[i];
        let mapped = if c == '@' || c == '.' {
            '-'
        } else if ('0' <= c && c <= '9') || ('a' <= c && c <= 'z') || ('A' <= c && c <= 'Z')
            || c == '_' || c == '-' {
            c
        } else {
            '-'
        };
        crate::text::push_char(&mut out, mapped);
        assert(chars@.take(i + 1) == chars@.take(i as int).push(c));
        i = i + 1;
    }
    assert(chars@.take(chars@.len() as int) == chars@);
    out
}

/// The WeChat service that the channel talks to unless told otherwise.
pub fn default_base_url() -> (r: String)
    ensures
        r@ == "https://ilinkai.weixin.qq.com"@,
{
    "https://ilinkai.weixin.qq.com".to_owned()
}

pub open spec fn occupied_activity_text() -> Seq<char> {
    "X-Ray 已尝试自动唤醒原任务，但写入权仍由 Codex Desktop 持有，IPC 尚未建立；未创建副本或新会话"@
}

/// A message that the channel could not take over the Desktop task.
pub fn occupied_activity() -> (r: String)
    ensures
        r@ == occupied_activity_text(),
{
    "X-Ray 已尝试自动唤醒原任务，但写入权仍由 Codex Desktop 持有，IPC 尚未建立；未创建副本或新会话".to_owned()
}

pub open spec fn occupied_text() -> Seq<char> {
    "X-Ray 已尝试自动唤醒这个 Codex Desktop 原任务，但尚未通过本机 IPC 建立控制。请回到 Mac，在 X-Ray 点击“重试自动连接”；如果仍失败，再手动打开完全相同的 Codex 任务。本次没有创建副本或新会话。"@
}

/// The WeChat reply when the Desktop task could not be controlled.
pub fn occupied_weixin_message() -> (r: &'static str)
    ensures
        r@ == occupied_text(),
{
    "X-Ray 已尝试自动唤醒这个 Codex Desktop 原任务，但尚未通过本机 IPC 建立控制。请回到 Mac，在 X-Ray 点击“重试自动连接”；如果仍失败，再手动打开完全相同的 Codex 任务。本次没有创建副本或新会话。"
}

pub open spec fn writer_conflict(error: Seq<char>) -> bool {
    let lowered = crate::text::ascii_lower(error);
    has_infix(lowered, "active writer"@) || has_infix(lowered, "another writer"@)
}

/// The App Server refused because another writer holds the task.
pub fn is_active_writer_conflict(error: &str) -> (r: bool)
    ensures
        r == writer_conflict(error@),
{
    let lowered = crate::text::str_ascii_lowercase(error);
    str_contains(lowered.as_str(), "active writer") || str_contains(
        lowered.as_str(),
        "another writer",
    )
}

/// The task is held by Desktop or its IPC failed.
pub fn is_occupied_error(error: &str) -> (r: bool)
    ensures
        r == (writer_conflict(error@) || has_infix(error@, "IPC"@)),
{
    is_active_writer_conflict(error) || str_contains(error, "IPC")
}

pub open spec fn approval_kind_text(method: Seq<char>) -> Seq<char> {
    if has_infix(crate::text::ascii_lower(method), "permission"@) {
        "权限请求"@
    } else if method == "item/fileChange/requestApproval"@ || method == "applyPatchApproval"@ {
        "文件修改"@
    } else {
        "命令执行"@
    }
}

/// The kind of an approval request, from its method name.
pub fn approval_kind(method: &str) -> (r: &'static str)
    ensures
        r@ == approval_kind_text(method@),
{
    let lowered = crate::text::str_ascii_lowercase(method);
    if str_contains(lowered.as_str(), "permission") {
        return "权限请求";
    }
    if str_eq(method, "item/fileChange/requestApproval") || str_eq(method, "applyPatchApproval") {
        "文件修改"
    } else {
        "命令执行"
    }
}

/// A WeChat API reply's status fields.
#[derive(Debug)]
pub struct WeixinApiResponse {
    pub ret: Option<i64>,
    pub errcode: Option<i64>,
    pub errmsg: Option<String>,
}

pub open spec fn or_zero(v: Option<i64>) -> int {
    match v {
        Some(x) => x as int,
        None => 0,
    }
}

/// Success exactly when both status codes are absent or zero.
pub fn ensure_api_success(response: &WeixinApiResponse, label: &str) -> (r: Result<(), String>)
    ensures
        r is Ok <==> (or_zero(response.ret) == 0 && or_zero(response.errcode) == 0),
        r matches Err(e) ==> e@ == "微信 "@ + label@ + " 失败：ret="@ + signed_decimal(
            or_zero(response.ret),
        ) + " errcode="@ + signed_decimal(or_zero(response.errcode)) + " "@ + match
            response.errmsg {
            Some(m) => m@,
            None => Seq::<char>::empty(),
        },
{
    let ret = match response.ret {
        Some(v) => v,
        None => 0,
    };
    let errcode = match response.errcode {
        Some(v) => v,
        None => 0,
    };
    if ret == 0 && errcode == 0 {
        return Ok(());
    }
    let mut out = "微信 ".to_owned();
    out.append(label);
    out.append(" 失败：ret=");
    let r = signed_decimal_string(ret);
    out.append(r.as_str());
    out.append(" errcode=");
    let e = signed_decimal_string(errcode);
    out.append(e.as_str());
    out.append(" ");
    match &response.errmsg {
        Some(m) => out.append(m.as_str()),
        None => {},
    }
    Err(out)
}

/// One text or voice part of a WeChat message.
#[derive(Debug)]
pub struct WeixinTextItem {
    pub text: Option<String>,
}

/// One part of a WeChat message.
#[derive(Debug)]
pub struct WeixinMessageItem {
    pub item_type: Option<u32>,
    pub text_item: Option<WeixinTextItem>,
    pub voice_item: Option<WeixinTextItem>,
}

/// An inbound WeChat message.
#[derive(Debug)]
pub struct WeixinMessage {
    pub seq: Option<u64>,
    pub message_id: Option<u64>,
    pub from_user_id: Option<String>,
    pub client_id: Option<String>,
    pub group_id: Option<String>,
    pub message_type: Option<u32>,
    pub item_list: Option<Vec<WeixinMessageItem>>,
    pub context_token: Option<String>,
}

/// Only direct messages from a user (not bot echoes, not group messages) enter Codex.
pub fn is_direct_user_message(message: &WeixinMessage) -> (r: bool)
    ensures
        r == (message.message_type != Some(2u32) && match message.group_id {
            Some(g) => trim_spec(g@).len() == 0,
            None => true,
        }),
{
    if message.message_type == Some(2) {
        return false;
    }
    match &message.group_id {
        Some(g) => str_trim(g.as_str()).is_empty(),
        None => true,
    }
}

/// The text an item carries: type 1 is text, type 3 is a voice transcript.
pub open spec fn item_text(item: WeixinMessageItem) -> Option<Option<Seq<char>>> {
    if item.item_type == Some(1u32) {
        Some(
            match item.text_item {
                Some(t) => match t.text {
                    Some(x) => Some(x@),
                    None => None,
                },
                None => None,
            },
        )
    } else if item.item_type == Some(3u32) {
        Some(
            match item.voice_item {
                Some(t) => match t.text {
                    Some(x) => Some(x@),
                    None => None,
                },
                None => None,
            },
        )
    } else {
        None
    }
}

/// Index of the first item that yields text.
pub open spec fn first_text_index(items: Seq<WeixinMessageItem>) -> int
    decreases items.len(),
{
    if items.len() == 0 {
        0
    } else if item_text(items[0]) matches Some(Some(_)) {
        0
    } else {
        1 + first_text_index(items.drop_first())
    }
}

pub open spec fn message_text_spec(message: WeixinMessage) -> Option<Seq<char>> {
    match message.item_list {
        Some(items) => {
            let i = first_text_index(items@);
            if i < items@.len() {
                item_text(items@[i]).unwrap()
            } else {
                None
            }
        },
        None => None,
    }
}

proof fn lemma_first_text_index(items: Seq<WeixinMessageItem>)
    ensures
        0 <= first_text_index(items) <= items.len(),
        forall|j: int|
            0 <= j < first_text_index(items) ==> !(item_text(#[trigger] items[j]) matches Some(
                Some(_),
            )),
        first_text_index(items) < items.len() ==> item_text(items[first_text_index(items)])
            matches Some(Some(_)),
    decreases items.len(),
{
    if items.len() > 0 && !(item_text(items[0]) matches Some(Some(_))) {
        lemma_first_text_index(items.drop_first());
        assert forall|j: int| 0 <= j < first_text_index(items) implies !(item_text(
            #[trigger] items[j],
        ) matches Some(Some(_))) by {
            if j > 0 {
                assert(items[j] == items.drop_first()[j - 1]);
            }
        }
    }
}

/// The first text or voice transcript of a message.
pub fn message_text(message: &WeixinMessage) -> (r: Option<String>)
    ensures
        match r {
            Some(t) => message_text_spec(*message) == Some(t@),
            None => message_text_spec(*message) is None,
        },
{
    let items = match &message.item_list {
        Some(items) => items,
        None => {
            return None;
        },
    };
    proof {
        lemma_first_text_index(items@);
    }
    let mut i: usize = 0;
    while i < items.len()
        invariant
            i <= items@.len(),
            message.item_list == Some(*items),
            forall|j: int|
                0 <= j < i ==> !(item_text(#[trigger] items@[j]) matches Some(Some(_))),
            0 <= first_text_index(items@) <= items@.len(),
            forall|j: int|
                0 <= j < first_text_index(items@) ==> !(item_text(#[trigger] items@[j]) matches Some(
                    Some(_),
                )),
            first_text_index(items@) < items@.len() ==> item_text(
                items@[first_text_index(items@)],
            ) matches Some(Some(_)),
        decreases items@.len() - i,
    {
        let item = &items[i];
        let found: Option<&String> = if item.item_type == Some(1) {
            match &item.text_item {
                Some(t) => t.text.as_ref(),
                None => None,
            }
        } else if item.item_type == Some(3) {
            match &item.voice_item {
                Some(t) => t.text.as_ref(),
                None => None,
            }
        } else {
            None
        };
        match found {
            Some(text) => {
                assert(first_text_index(items@) == i);
                return Some(text.clone());
            },
            None => {},
        }
        i = i + 1;
    }
    None
}

/// A fresh message ID from a clock reading and a sequence number.
pub fn next_client_id(now_ms: u128, sequence: u64) -> (r: String)
    ensures
        r@ == "codex-xray-"@ + decimal(now_ms as nat) + "-"@ + decimal(sequence as nat),
{
    let mut out = "codex-xray-".to_owned();
    let now = decimal_string(now_ms);
    out.append(now.as_str());
    out.append("-");
    let seq = decimal_string(sequence as u128);
    out.append(seq.as_str());
    out
}

/// The words of a command given as a list: its string items joined by spaces.
pub open spec fn command_words(parts: Seq<Json>, n: nat) -> Seq<char>
    decreases n,
{
    if n == 0 || n > parts.len() {
        Seq::empty()
    } else {
        let before = command_words(parts, (n - 1) as nat);
        match parts[n - 1] {
            Json::Str(w) => if command_has_words(parts, (n - 1) as nat) {
                before + " "@ + w
            } else {
                w
            },
            _ => before,
        }
    }
}

/// Some of the first `n` items are strings.
pub open spec fn command_has_words(parts: Seq<Json>, n: nat) -> bool
    decreases n,
{
    if n == 0 || n > parts.len() {
        false
    } else {
        parts[n - 1] is Str || command_has_words(parts, (n - 1) as nat)
    }
}

/// What an approval request asks, for WeChat: the reason of a permission
/// request (or its message), the reason of a file change, else the command.
pub open spec fn approval_summary_text(method: Seq<char>, params: Json, homes: Seq<Seq<char>>) -> Seq<char> {
    if has_infix(crate::text::ascii_lower(method), "permission"@) {
        let reason = match params.get("reason"@) {
            Some(v) => Some(v),
            None => params.get("message"@),
        };
        match reason {
            Some(Json::Str(r)) => crate::sanitize::weixin_system_text(r, 500, homes),
            _ => "Codex 请求额外权限。"@,
        }
    } else if method == "item/fileChange/requestApproval"@ || method == "applyPatchApproval"@ {
        match params.get("reason"@) {
            Some(Json::Str(r)) => crate::sanitize::weixin_system_text(r, 500, homes),
            _ => "Codex 请求修改工作区文件。"@,
        }
    } else {
        match params.get("command"@) {
            Some(command) => crate::sanitize::weixin_system_text(
                match command {
                    Json::Str(c) => c,
                    Json::Array(parts) => command_words(parts, parts.len()),
                    other => crate::json_text::json_text(other),
                },
                700,
                homes,
            ),
            None => "Codex 请求执行一条需要额外权限的命令。"@,
        }
    }
}

/// What an approval request asks, for WeChat.
pub fn approval_summary(method: &str, params: &JsonValue, homes: &[String]) -> (r: String)
    ensures
        r@ == approval_summary_text(method@, params@, crate::sanitize::strings_view(homes@)),
{
    let lowered = crate::text::str_ascii_lowercase(method);
    if str_contains(lowered.as_str(), "permission") {
        let reason = match params.get("reason") {
            Some(v) => Some(v),
            None => params.get("message"),
        };
        return match reason {
            Some(JsonValue::String(r)) => crate::sanitize::sanitize_weixin_system_text(r.as_str(), 500, homes),
            _ => "Codex 请求额外权限。".to_owned(),
        };
    }
    if str_eq(method, "item/fileChange/requestApproval") || str_eq(method, "applyPatchApproval") {
        return match params.get("reason") {
            Some(JsonValue::String(r)) => crate::sanitize::sanitize_weixin_system_text(r.as_str(), 500, homes),
            _ => "Codex 请求修改工作区文件。".to_owned(),
        };
    }
    match params.get("command") {
        Some(command) => {
            let text = match command {
                JsonValue::String(c) => c.clone(),
                JsonValue::Array(parts) => {
                    let ghost whole = command@;
                    assert(whole->Array_0 =~= crate::json::items_view(parts@));
                    let ghost pv = crate::json::items_view(parts@);
                    let mut out = String::new();
                    let mut any = false;
                    let mut k: usize = 0;
                    while k < parts.len()
                        invariant
                            k <= parts@.len(),
                            pv == crate::json::items_view(parts@),
                            out@ == command_words(pv, k as nat),
                            any == command_has_words(pv, k as nat),
                        decreases parts@.len() - k,
                    {
                        assert(pv[k as int] == parts@[k as int]@);
                        match &parts[k] {
                            JsonValue::String(w) => {
                                if any {
                                    out.append(" ");
                                    out.append(w.as_str());
                                } else {
                                    out = w.clone();
                                }
                                any = true;
                            },
                            _ => {},
                        }
                        k = k + 1;
                    }
                    out
                },
                other => other.to_text(),
            };
            crate::sanitize::sanitize_weixin_system_text(text.as_str(), 700, homes)
        },
        None => "Codex 请求执行一条需要额外权限的命令。".to_owned(),
    }
}

/// The standard Base64 text (with padding) of some bytes, as the base64
/// crate writes it.
pub uninterp spec fn base64_text(bytes: Seq<u8>) -> Seq<char>;

/// `base64::engine::general_purpose::STANDARD.encode`: the standard Base64
/// text of the bytes, named rather than written out.
#[verifier::external_body]
fn base64_encode(bytes: &[u8]) -> (r: String)
    ensures
        r@ == base64_text(bytes@),
{
    base64::engine::general_purpose::STANDARD.encode(bytes)
}

/// The low 32 bits of a clock reading mixed with a sequence number rotated
/// left by 17 bits.
pub open spec fn uin_value(now_nanos: u128, sequence: u64) -> u32 {
    let s = sequence as u128;
    let rotated = (s << 17u128) | (s >> 111u128);
    ((now_nanos ^ rotated) & 0xFFFF_FFFFu128) as u32
}

/// The ASCII bytes of a decimal text.
pub open spec fn ascii_bytes(text: Seq<char>) -> Seq<u8> {
    text.map_values(|c: char| c as u8)
}

/// The `X-WECHAT-UIN` header value: the Base64 text of the decimal digits of
/// a number mixed from a clock reading (nanoseconds) and a sequence number.
pub fn wechat_uin(now_nanos: u128, sequence: u64) -> (r: String)
    ensures
        r@ == base64_text(ascii_bytes(decimal(uin_value(now_nanos, sequence) as nat))),
{
    let s = sequence as u128;
    let rotated = (s << 17u128) | (s >> 111u128);
    let value = ((now_nanos ^ rotated) & 0xFFFF_FFFFu128) as u32;
    let digits = decimal_string(value as u128);
    let chars = chars_of(digits.as_str());
    let mut bytes: Vec<u8> = Vec::new();
    let mut k: usize = 0;
    while k < chars.len()
        invariant
            k <= chars@.len(),
            bytes@ == ascii_bytes(chars@.take(k as int)),
        decreases chars@.len() - k,
    {
        let c = chars[k];
        bytes.push(c as u8);
        assert(ascii_bytes(chars@.take(k + 1)) =~= ascii_bytes(chars@.take(k as int)).push(c as u8));
        k = k + 1;
    }
    assert(chars@.take(k as int) =~= chars@);
    base64_encode(bytes.as_slice())
}

/// A command word lowered, with a full-width slash read as `/`.
pub open spec fn command_token_text(value: Seq<char>) -> Seq<char> {
    let lowered = crate::text::unicode_lowercase(value);
    if lowered.len() > 0 && lowered[0] == '／' {
        "/"@ + lowered.drop_first()
    } else {
        lowered
    }
}

/// Normalizes the first word of a WeChat command.
pub fn normalize_command_token(value: &str) -> (r: String)
    ensures
        r@ == command_token_text(value@),
{
    let lowered = crate::text::str_lowercase(value);
    let chars = chars_of(lowered.as_str());
    if chars.len() > 0 && chars[0] == '／' {
        let rest = string_of_range(chars.as_slice(), 1, chars.len());
        let mut out = "/".to_owned();
        out.append(rest.as_str());
        assert(chars@.subrange(1, chars@.len() as int) == chars@.drop_first());
        out
    } else {
        lowered
    }
}

/// The commands the channel knows, in the order they are offered.
pub open spec fn command_names() -> Seq<Seq<char>> {
    seq!["/help"@, "/list"@, "/status"@, "/stop"@, "/approve"@, "/deny"@]
}

pub open spec fn command_descriptions() -> Seq<Seq<char>> {
    seq!["查看用法"@, "临时切换任务"@, "查看状态"@, "停止当前回合"@, "批准操作"@, "拒绝操作"@]
}

/// Index of the first known command nearest to `command` among the first `upto`.
pub open spec fn nearest_command(command: Seq<char>, upto: nat) -> nat
    decreases upto,
{
    if upto <= 1 {
        0
    } else {
        let best = nearest_command(command, (upto - 1) as nat);
        if lev(command, command_names()[upto - 1]) < lev(command, command_names()[best as int]) {
            (upto - 1) as nat
        } else {
            best
        }
    }
}

pub open spec fn unknown_command_text(command: Seq<char>) -> Seq<char> {
    let best = nearest_command(command, 6) as int;
    if lev(command, command_names()[best]) <= 2 {
        "命令 "@ + command + " 不存在。你是不是想用 "@ + command_names()[best] + "（"@
            + command_descriptions()[best] + "）？\n发送 /help 可以查看全部命令。"@
    } else {
        "命令 "@ + command + " 不存在。发送 /help 查看可用命令；如果这是给 Codex 的普通指令，请不要以 / 开头。"@
    }
}

fn command_entry(i: usize) -> (r: (&'static str, &'static str))
    requires
        i < 6,
    ensures
        r.0@ == command_names()[i as int],
        r.1@ == command_descriptions()[i as int],
{
    if i == 0 {
        ("/help", "查看用法")
    } else if i == 1 {
        ("/list", "临时切换任务")
    } else if i == 2 {
        ("/status", "查看状态")
    } else if i == 3 {
        ("/stop", "停止当前回合")
    } else if i == 4 {
        ("/approve", "批准操作")
    } else {
        ("/deny", "拒绝操作")
    }
}

/// The reply to an unknown `/` command, suggesting the nearest known one when it
/// is at most two edits away.
pub fn unknown_command_reply(command: &str) -> (r: String)
    requires
        command@.len() + 8 < usize::MAX,
    ensures
        r@ == unknown_command_text(command@),
{
    proof {
        reveal_strlit("/help");
        reveal_strlit("/list");
        reveal_strlit("/status");
        reveal_strlit("/stop");
        reveal_strlit("/approve");
        reveal_strlit("/deny");
    }
    let first = command_entry(0);
    let mut best: usize = 0;
    let mut best_distance = edit_distance(command, first.0);
    let mut i: usize = 1;
    while i < 6
        invariant
            1 <= i <= 6,
            best < i,
            command@.len() + 8 < usize::MAX,
            best == nearest_command(command@, i as nat),
            best_distance == lev(command@, command_names()[best as int]),
            forall|k: int| 0 <= k < 6 ==> (#[trigger] command_names()[k]).len() <= 8,
        decreases 6 - i,
    {
        let entry = command_entry(i);
        let distance = edit_distance(command, entry.0);
        if distance < best_distance {
            best = i;
            best_distance = distance;
        }
        i = i + 1;
    }
    let chosen = command_entry(best);
    let mut out = "命令 ".to_owned();
    out.append(command);
    if best_distance <= 2 {
        out.append(" 不存在。你是不是想用 ");
        out.append(chosen.0);
        out.append("（");
        out.append(chosen.1);
        out.append("）？\n发送 /help 可以查看全部命令。");
    } else {
        out.append(" 不存在。发送 /help 查看可用命令；如果这是给 Codex 的普通指令，请不要以 / 开头。");
    }
    out
}

pub open spec fn attach_error_text(error: Seq<char>, homes: Seq<Seq<char>>) -> Seq<char> {
    if writer_conflict(error) {
        occupied_text()
    } else {
        "接管原 Codex 任务失败："@ + crate::sanitize::weixin_system_text(error, 700, homes)
    }
}

/// The WeChat reply when taking over a task failed; a writer conflict never
/// offers a copy.
pub fn attach_error_message(error: &str, homes: &[String]) -> (r: String)
    ensures
        r@ == attach_error_text(error@, homes@.map_values(|h: String| h@)),
{
    if is_active_writer_conflict(error) {
        return occupied_weixin_message().to_owned();
    }
    let mut out = "接管原 Codex 任务失败：".to_owned();
    let detail = crate::sanitize::sanitize_weixin_system_text(error, 700, homes);
    out.append(detail.as_str());
    out
}

pub open spec fn command_error_text(error: Seq<char>, homes: Seq<Seq<char>>) -> Seq<char> {
    if has_infix(error, "没有创建副本或新会话"@) {
        error
    } else if has_infix(error, "没有找到匹配的 Codex 任务"@) {
        "没有找到这个任务。请发送 /list 获取最新列表，然后直接回复序号。"@
    } else if has_infix(error, "任务 ID 前缀不唯一"@) {
        "这个任务 ID 同时匹配了多个任务。请发送 /list，然后直接回复序号，例如：2。"@
    } else if has_infix(error, "项目目录必须是本机已存在的绝对目录"@) {
        "这个目录在 Mac 上不存在，或者不是绝对路径。请回到 X-Ray 页面重新选择项目目录。"@
    } else {
        "这条指令没处理成功："@ + crate::sanitize::weixin_system_text(error, 700, homes)
            + "\n\n可以重试，或发送 /help 查看用法。"@
    }
}

/// The WeChat reply when a command failed.
pub fn command_error_reply(error: &str, homes: &[String]) -> (r: String)
    ensures
        r@ == command_error_text(error@, homes@.map_values(|h: String| h@)),
{
    if str_contains(error, "没有创建副本或新会话") {
        return error.to_owned();
    }
    if str_contains(error, "没有找到匹配的 Codex 任务") {
        return "没有找到这个任务。请发送 /list 获取最新列表，然后直接回复序号。".to_owned();
    }
    if str_contains(error, "任务 ID 前缀不唯一") {
        return "这个任务 ID 同时匹配了多个任务。请发送 /list，然后直接回复序号，例如：2。".to_owned();
    }
    if str_contains(error, "项目目录必须是本机已存在的绝对目录") {
        return "这个目录在 Mac 上不存在，或者不是绝对路径。请回到 X-Ray 页面重新选择项目目录。".to_owned();
    }
    let mut out = "这条指令没处理成功：".to_owned();
    let detail = crate::sanitize::sanitize_weixin_system_text(error, 700, homes);
    out.append(detail.as_str());
    out.append("\n\n可以重试，或发送 /help 查看用法。");
    out
}

pub open spec fn control_unavailable_text(error: Option<Seq<char>>, homes: Seq<Seq<char>>) -> Seq<char> {
    let detail = match error {
        Some(e) => if trim_spec(e).len() > 0 {
            " IPC 详情："@ + crate::sanitize::weixin_system_text(trim_spec(e), 500, homes)
        } else {
            " Codex Desktop 没有及时注册这个任务的 owner。"@
        },
        None => " Codex Desktop 没有及时注册这个任务的 owner。"@,
    };
    "X-Ray 已尝试在后台自动打开这个 Codex Desktop 原任务，但尚未建立同任务控制。"@ + detail
        + "请重试自动连接；如果仍失败，再手动打开完全相同的 Desktop 任务。X-Ray 没有创建副本或新会话。"@
}

/// The WeChat reply when the Desktop task could not be reached over IPC.
pub fn desktop_control_unavailable_message(error: Option<&str>, homes: &[String]) -> (r: String)
    ensures
        r@ == control_unavailable_text(
            crate::json::opt_str_view(error),
            homes@.map_values(|h: String| h@),
        ),
{
    let mut out = "X-Ray 已尝试在后台自动打开这个 Codex Desktop 原任务，但尚未建立同任务控制。".to_owned();
    let mut explained = false;
    match error {
        Some(e) => {
            let trimmed = str_trim(e);
            if !trimmed.is_empty() {
                out.append(" IPC 详情：");
                let detail = crate::sanitize::sanitize_weixin_system_text(trimmed, 500, homes);
                out.append(detail.as_str());
                explained = true;
            }
        },
        None => {},
    }
    if !explained {
        out.append(" Codex Desktop 没有及时注册这个任务的 owner。");
    }
    out.append("请重试自动连接；如果仍失败，再手动打开完全相同的 Desktop 任务。X-Ray 没有创建副本或新会话。");
    out
}

pub open spec fn status_label(status: Seq<char>) -> Seq<char> {
    if status == "running"@ {
        "运行中"@
    } else if status == "waiting_approval"@ {
        "等待审批"@
    } else if status == "waiting_input"@ {
        "等待输入"@
    } else if status == "failed"@ {
        "失败"@
    } else {
        "空闲"@
    }
}

fn status_label_of(status: &str) -> (r: &'static str)
    ensures
        r@ == status_label(status@),
{
    if str_eq(status, "running") {
        "运行中"
    } else if str_eq(status, "waiting_approval") {
        "等待审批"
    } else if str_eq(status, "waiting_input") {
        "等待输入"
    } else if str_eq(status, "failed") {
        "失败"
    } else {
        "空闲"
    }
}

/// One line of the task list: number, status, title, short ID and directory name.
pub open spec fn task_line(number: nat, task: RemoteTaskSummary) -> Seq<char> {
    decimal(number) + ". ["@ + status_label(task.status@) + "] "@ + task.title@ + "\n   "@
        + short_id_text(task.id@) + " · 目录："@ + path_label_text(task.cwd@)
}

/// The task lines for the first `count` tasks, each after a line break.
pub open spec fn task_lines(tasks: Seq<RemoteTaskSummary>, count: nat) -> Seq<char>
    decreases count,
{
    if count == 0 {
        Seq::empty()
    } else {
        task_lines(tasks, (count - 1) as nat) + "\n"@ + task_line(count, tasks[count - 1])
    }
}

pub open spec fn task_list_text(tasks: Seq<RemoteTaskSummary>) -> Seq<char> {
    if tasks.len() == 0 {
        "当前没有找到 Codex 任务。"@
    } else {
        "最近的 Codex 任务："@ + task_lines(tasks, tasks.len()) + "\n\n直接回复序号即可切换，例如：2。发送 /cancel 退出选择。"@
    }
}

/// The numbered task list sent over WeChat; only directory names are shown.
pub fn format_task_list(tasks: &[RemoteTaskSummary]) -> (r: String)
    ensures
        r@ == task_list_text(tasks@),
{
    if tasks.len() == 0 {
        return "当前没有找到 Codex 任务。".to_owned();
    }
    let mut out = "最近的 Codex 任务：".to_owned();
    let ghost head = out@;
    let mut i: usize = 0;
    while i < tasks.len()
        invariant
            i <= tasks@.len(),
            out@ == head + task_lines(tasks@, i as nat),
        decreases tasks@.len() - i,
    {
        let task = &tasks[i];
        let ghost before = out@;
        out.append("\n");
        let number = decimal_string((i as u128) + 1);
        out.append(number.as_str());
        out.append(". [");
        out.append(status_label_of(task.status.as_str()));
        out.append("] ");
        out.append(task.title.as_str());
        out.append("\n   ");
        out.append(short_id(task.id.as_str()));
        out.append(" · 目录：");
        let label = remote_path_label(task.cwd.as_str());
        out.append(label.as_str());
        proof {
            let line = task_line((i + 1) as nat, tasks@[i as int]);
            assert(out@ == before + "\n"@ + line);
            assert(head + task_lines(tasks@, (i + 1) as nat) == head + task_lines(tasks@, i as nat) + "\n"@ + line);
        }
        i = i + 1;
    }
    out.append("\n\n直接回复序号即可切换，例如：2。发送 /cancel 退出选择。");
    out
}

pub open spec fn selected_task_text(snapshot: RemoteChannelSnapshot) -> Seq<char> {
    let title = match snapshot.attached_thread_title {
        Some(t) => t@,
        None => "Codex 任务"@,
    };
    let cwd = match snapshot.attached_cwd {
        Some(c) => path_label_text(c@),
        None => "未知目录"@,
    };
    let state = if snapshot.control_ready && snapshot.control_backend@ == "desktop_ipc"@ {
        "已连接 Codex Desktop 中的同一个原任务。现在直接发送普通文字即可。"@
    } else if snapshot.control_ready {
        "已设为 X-Ray 独立任务。现在直接发送普通文字即可。"@
    } else {
        match snapshot.last_error {
            Some(e) => e@,
            None => occupied_text(),
        }
    };
    "已选择："@ + title + "\n"@ + cwd + "\n"@ + state
}

/// The confirmation sent after a task was chosen from the list.
pub fn selected_task_message(snapshot: &RemoteChannelSnapshot) -> (r: String)
    ensures
        r@ == selected_task_text(*snapshot),
{
    let mut out = "已选择：".to_owned();
    match &snapshot.attached_thread_title {
        Some(t) => out.append(t.as_str()),
        None => out.append("Codex 任务"),
    }
    out.append("\n");
    match &snapshot.attached_cwd {
        Some(c) => {
            let label = remote_path_label(c.as_str());
            out.append(label.as_str());
        },
        None => out.append("未知目录"),
    }
    out.append("\n");
    if snapshot.control_ready && str_eq(snapshot.control_backend.as_str(), "desktop_ipc") {
        out.append("已连接 Codex Desktop 中的同一个原任务。现在直接发送普通文字即可。");
    } else if snapshot.control_ready {
        out.append("已设为 X-Ray 独立任务。现在直接发送普通文字即可。");
    } else {
        match &snapshot.last_error {
            Some(e) => out.append(e.as_str()),
            None => out.append(occupied_weixin_message()),
        }
    }
    out
}

pub open spec fn approval_result_model(method: Seq<char>, approve: bool) -> Json {
    if method == "item/commandExecution/requestApproval"@ || method
        == "item/fileChange/requestApproval"@ {
        Json::Object(seq![("decision"@, Json::Str(if approve { "accept"@ } else { "decline"@ }))])
    } else if approve {
        Json::Object(seq![("decision"@, Json::Str("approved"@))])
    } else {
        Json::Object(
            seq![
                (
                    "decision"@,
                    Json::Object(
                        seq![
                            (
                                "denied"@,
                                Json::Object(
                                    seq![("rejection"@, Json::Str("用户从微信拒绝了该操作。"@))],
                                ),
                            ),
                        ],
                    ),
                ),
            ],
        )
    }
}

/// The JSON-RPC answer to an approval request, in the form its method expects.
pub fn approval_result(method: &str, approve: bool) -> (r: JsonValue)
    ensures
        r@ == approval_result_model(method@, approve),
{
    if str_eq(method, "item/commandExecution/requestApproval") || str_eq(
        method,
        "item/fileChange/requestApproval",
    ) {
        let decision = if approve {
            "accept"
        } else {
            "decline"
        };
        JsonValue::single_member("decision", JsonValue::text(decision))
    } else if approve {
        JsonValue::single_member("decision", JsonValue::text("approved"))
    } else {
        let rejection = JsonValue::single_member("rejection", JsonValue::text("用户从微信拒绝了该操作。"));
        let denied = JsonValue::single_member("denied", rejection);
        JsonValue::single_member("decision", denied)
    }
}

pub open spec fn turn_completion_text(params: Json) -> Seq<char> {
    let status = match params.at(seq!["turn"@, "status"@]) {
        Some(v) => match v.str_of() {
            Some(s) => s,
            None => "completed"@,
        },
        None => "completed"@,
    };
    if status == "failed"@ {
        "Codex 回合失败"@
    } else if status == "interrupted"@ {
        "Codex 回合已中断"@
    } else {
        "Codex 回合已完成"@
    }
}

/// The activity line for a finished turn.
pub fn turn_completion_activity(params: &JsonValue) -> (r: String)
    ensures
        r@ == turn_completion_text(params@),
{
    let path: [&str; 2] = ["turn", "status"];
    let found = params.pointer(path.as_slice());
    proof {
        assert(path@.map_values(|p: &str| p@) == seq!["turn"@, "status"@]);
    }
    let status = match found {
        Some(v) => match v.as_str() {
            Some(s) => s,
            None => "completed",
        },
        None => "completed",
    };
    if str_eq(status, "failed") {
        "Codex 回合失败".to_owned()
    } else if str_eq(status, "interrupted") {
        "Codex 回合已中断".to_owned()
    } else {
        "Codex 回合已完成".to_owned()
    }
}

pub open spec fn matches_or_absent(found: Option<Seq<char>>, expected: Seq<char>) -> bool {
    match found {
        Some(v) => v == expected,
        None => true,
    }
}

pub open spec fn event_turn_id(params: Json) -> Option<Seq<char>> {
    match params.str_at("turnId"@) {
        Some(t) => Some(t),
        None => match params.at(seq!["turn"@, "id"@]) {
            Some(v) => v.str_of(),
            None => None,
        },
    }
}

/// Whether a notification belongs to the given thread and turn; a missing ID matches.
pub fn event_matches_turn(params: &JsonValue, thread_id: &str, turn_id: &str) -> (r: bool)
    ensures
        r == (matches_or_absent(params@.str_at("threadId"@), thread_id@) && matches_or_absent(
            event_turn_id(params@),
            turn_id@,
        )),
{
    let event_thread = params.str_at("threadId");
    let path: [&str; 2] = ["turn", "id"];
    proof {
        assert(path@.map_values(|p: &str| p@) == seq!["turn"@, "id"@]);
    }
    let event_turn = match params.str_at("turnId") {
        Some(t) => Some(t),
        None => match params.pointer(path.as_slice()) {
            Some(v) => v.as_str(),
            None => None,
        },
    };
    let thread_ok = match event_thread {
        Some(t) => str_eq(t, thread_id),
        None => true,
    };
    let turn_ok = match event_turn {
        Some(t) => str_eq(t, turn_id),
        None => true,
    };
    thread_ok && turn_ok
}

/// Index of the last `agentMessage` item among the first `n`, if any.
pub open spec fn last_agent_item(items: Seq<Json>, n: int) -> Option<int>
    decreases n,
{
    if n <= 0 {
        None
    } else if items[n - 1].str_at("type"@) == Some("agentMessage"@) {
        Some(n - 1)
    } else {
        last_agent_item(items, n - 1)
    }
}

pub open spec fn final_agent_text(params: Json) -> Option<Seq<char>> {
    match params.at(seq!["turn"@, "items"@]) {
        Some(v) => match v.items() {
            Some(items) => match last_agent_item(items, items.len() as int) {
                Some(i) => items[i].str_at("text"@),
                None => None,
            },
            None => None,
        },
        None => None,
    }
}

/// The text of the last agent message in a completed turn.
pub fn final_agent_message(params: &JsonValue) -> (r: Option<String>)
    ensures
        match r {
            Some(t) => final_agent_text(params@) == Some(t@),
            None => final_agent_text(params@) is None,
        },
{
    let path: [&str; 2] = ["turn", "items"];
    proof {
        assert(path@.map_values(|p: &str| p@) == seq!["turn"@, "items"@]);
    }
    let items = match params.pointer(path.as_slice()) {
        Some(v) => match v.as_array() {
            Some(items) => items,
            None => {
                return None;
            },
        },
        None => {
            return None;
        },
    };
    let ghost model = params@.at(seq!["turn"@, "items"@]).unwrap()->Array_0;
    assert(params@.at(seq!["turn"@, "items"@]).unwrap().items() == Some(model));
    let mut n: usize = items.len();
    while n > 0
        invariant
            n <= items@.len(),
            model.len() == items@.len(),
            forall|i: int| 0 <= i < items@.len() ==> #[trigger] model[i] == items@[i]@,
            last_agent_item(model, model.len() as int) == last_agent_item(model, n as int),
            params@.at(seq!["turn"@, "items"@]) is Some,
            params@.at(seq!["turn"@, "items"@]).unwrap().items() == Some(model),
        decreases n,
    {
        let item = &items[n - 1];
        let kind = item.str_at("type");
        let is_agent = match kind {
            Some(k) => str_eq(k, "agentMessage"),
            None => false,
        };
        if is_agent {
            assert(model[n - 1] == items@[n - 1]@);
            assert(model[n - 1].str_at("type"@) == Some("agentMessage"@));
            assert(last_agent_item(model, n as int) == Some(n - 1));
            assert(final_agent_text(params@) == model[n - 1].str_at("text"@));
            return match item.str_at("text") {
                Some(t) => Some(t.to_owned()),
                None => None,
            };
        }
        n = n - 1;
    }
    None
}

pub open spec fn item_activity_text(params: Json, completed: bool, homes: Seq<Seq<char>>) -> Option<
    Seq<char>,
> {
    match params.get("item"@) {
        Some(item) => match item.str_at("type"@) {
            Some(kind) => {
                let suffix = if completed {
                    "完成"@
                } else {
                    "执行中"@
                };
                Some(
                    if kind == "commandExecution"@ {
                        let command = match item.str_at("command"@) {
                            Some(c) => crate::sanitize::weixin_system_text(c, 120, homes),
                            None => "命令"@,
                        };
                        "命令"@ + suffix + "："@ + command
                    } else if kind == "fileChange"@ {
                        "文件修改"@ + suffix
                    } else if kind == "mcpToolCall"@ {
                        let named = match item.get("tool"@) {
                            Some(v) => Some(v),
                            None => item.get("name"@),
                        };
                        let tool = match named {
                            Some(v) => match v.str_of() {
                                Some(t) => t,
                                None => "MCP 工具"@,
                            },
                            None => "MCP 工具"@,
                        };
                        "工具"@ + suffix + "："@ + tool
                    } else if kind == "webSearch"@ {
                        "网页搜索"@ + suffix
                    } else if kind == "agentMessage"@ {
                        "Codex 正在整理回复"@
                    } else {
                        kind + " "@ + suffix
                    },
                )
            },
            None => None,
        },
        None => None,
    }
}

/// A progress line for an item that started or finished.
pub fn item_activity(params: &JsonValue, completed: bool, homes: &[String]) -> (r: Option<String>)
    ensures
        match r {
            Some(t) => item_activity_text(params@, completed, homes@.map_values(|h: String| h@))
                == Some(t@),
            None => item_activity_text(params@, completed, homes@.map_values(|h: String| h@)) is None,
        },
{
    let item = match params.get("item") {
        Some(item) => item,
        None => {
            return None;
        },
    };
    let kind = match item.str_at("type") {
        Some(kind) => kind,
        None => {
            return None;
        },
    };
    let suffix = if completed {
        "完成"
    } else {
        "执行中"
    };
    let mut out = String::new();
    if str_eq(kind, "commandExecution") {
        out.append("命令");
        out.append(suffix);
        out.append("：");
        match item.str_at("command") {
            Some(c) => {
                let cleaned = crate::sanitize::sanitize_weixin_system_text(c, 120, homes);
                out.append(cleaned.as_str());
            },
            None => out.append("命令"),
        }
    } else if str_eq(kind, "fileChange") {
        out.append("文件修改");
        out.append(suffix);
    } else if str_eq(kind, "mcpToolCall") {
        let named = match item.get("tool") {
            Some(v) => Some(v),
            None => item.get("name"),
        };
        let tool = match named {
            Some(v) => match v.as_str() {
                Some(t) => t,
                None => "MCP 工具",
            },
            None => "MCP 工具",
        };
        out.append("工具");
        out.append(suffix);
        out.append("：");
        out.append(tool);
    } else if str_eq(kind, "webSearch") {
        out.append("网页搜索");
        out.append(suffix);
    } else if str_eq(kind, "agentMessage") {
        out.append("Codex 正在整理回复");
    } else {
        out.append(kind);
        out.append(" ");
        out.append(suffix);
    }
    Some(out)
}

/// What a session log line says about a turn: `(turn, true)` when it started,
/// `(turn, false)` when it completed or was aborted.
pub open spec fn turn_event(entry: Json) -> Option<(Seq<char>, bool)> {
    if entry.str_at("type"@) != Some("event_msg"@) {
        None
    } else {
        match entry.at(seq!["payload"@, "turn_id"@]) {
            Some(t) => match t.str_of() {
                Some(turn) => {
                    let kind = match entry.at(seq!["payload"@, "type"@]) {
                        Some(k) => k.str_of(),
                        None => None,
                    };
                    if kind == Some("task_started"@) {
                        Some((turn, true))
                    } else if kind == Some("task_complete"@) || kind == Some("turn_aborted"@) {
                        Some((turn, false))
                    } else {
                        None
                    }
                },
                None => None,
            },
            None => None,
        }
    }
}

/// The turns still open after reading the given log lines (`None` for a line
/// that is not JSON).
pub open spec fn open_turns(entries: Seq<Option<Json>>) -> Set<Seq<char>>
    decreases entries.len(),
{
    if entries.len() == 0 {
        Set::empty()
    } else {
        let before = open_turns(entries.drop_last());
        match entries.last() {
            Some(e) => match turn_event(e) {
                Some((turn, true)) => before.insert(turn),
                Some((turn, false)) => before.remove(turn),
                None => before,
            },
            None => before,
        }
    }
}

pub open spec fn entries_view(entries: Seq<Option<JsonValue>>) -> Seq<Option<Json>> {
    entries.map_values(|e: Option<JsonValue>| match e {
        Some(v) => Some(v@),
        None => None,
    })
}

/// The parsed lines of a log tail, without the first when it may be partial.
pub open spec fn tail_entries(entries: Seq<Option<JsonValue>>, skip_first: bool) -> Seq<Option<Json>> {
    if skip_first && entries.len() > 0 {
        entries_view(entries).drop_first()
    } else {
        entries_view(entries)
    }
}

fn turn_event_of(entry: &JsonValue) -> (r: Option<(String, bool)>)
    ensures
        match r {
            Some((turn, started)) => turn_event(entry@) == Some((turn@, started)),
            None => turn_event(entry@) is None,
        },
{
    let is_event = match entry.str_at("type") {
        Some(t) => str_eq(t, "event_msg"),
        None => false,
    };
    if !is_event {
        return None;
    }
    let turn_path: [&str; 2] = ["payload", "turn_id"];
    let kind_path: [&str; 2] = ["payload", "type"];
    proof {
        assert(turn_path@.map_values(|p: &str| p@) == seq!["payload"@, "turn_id"@]);
        assert(kind_path@.map_values(|p: &str| p@) == seq!["payload"@, "type"@]);
    }
    let turn = match entry.pointer(turn_path.as_slice()) {
        Some(t) => match t.as_str() {
            Some(turn) => turn,
            None => {
                return None;
            },
        },
        None => {
            return None;
        },
    };
    let kind = match entry.pointer(kind_path.as_slice()) {
        Some(k) => k.as_str(),
        None => None,
    };
    match kind {
        Some(k) => {
            if str_eq(k, "task_started") {
                Some((turn.to_owned(), true))
            } else if str_eq(k, "task_complete") || str_eq(k, "turn_aborted") {
                Some((turn.to_owned(), false))
            } else {
                None
            }
        },
        None => None,
    }
}

/// The texts held by a list of strings.
pub open spec fn names(v: Seq<String>) -> Set<Seq<char>> {
    Set::new(|t: Seq<char>| exists|k: int| 0 <= k < v.len() && (#[trigger] v[k])@ == t)
}

pub open spec fn distinct_names(v: Seq<String>) -> bool {
    forall|a: int, b: int| 0 <= a < b < v.len() ==> (#[trigger] v[a])@ != (#[trigger] v[b])@
}

proof fn lemma_names_push(v: Seq<String>, s: String)
    requires
        distinct_names(v),
        !names(v).contains(s@),
    ensures
        names(v.push(s)) == names(v).insert(s@),
        distinct_names(v.push(s)),
{
    let w = v.push(s);
    assert forall|t: Seq<char>| names(w).contains(t) <==> names(v).insert(s@).contains(t) by {
        if names(w).contains(t) {
            let k = choose|k: int| 0 <= k < w.len() && (#[trigger] w[k])@ == t;
            if k < v.len() {
                assert(v[k] == w[k]);
                assert(names(v).contains(t));
            }
        }
        if names(v).contains(t) {
            let k = choose|k: int| 0 <= k < v.len() && (#[trigger] v[k])@ == t;
            assert(w[k] == v[k]);
            assert(names(w).contains(t));
        }
        if t == s@ {
            assert(w[v.len() as int] == s);
            assert(names(w).contains(t));
        }
    }
    assert(names(w) =~= names(v).insert(s@));
    assert forall|a: int, b: int| 0 <= a < b < w.len() implies (#[trigger] w[a])@ != (
    #[trigger] w[b])@ by {
        if b == v.len() {
            assert(w[a] == v[a]);
            assert(names(v).contains(v[a]@));
        } else {
            assert(w[a] == v[a] && w[b] == v[b]);
        }
    }
}

proof fn lemma_names_remove(v: Seq<String>, k: int)
    requires
        distinct_names(v),
        0 <= k < v.len(),
    ensures
        names(v.remove(k)) == names(v).remove(v[k]@),
        distinct_names(v.remove(k)),
{
    let w = v.remove(k);
    assert forall|t: Seq<char>| names(w).contains(t) <==> names(v).remove(v[k]@).contains(t) by {
        if names(w).contains(t) {
            let j = choose|j: int| 0 <= j < w.len() && (#[trigger] w[j])@ == t;
            let j0 = if j < k { j } else { j + 1 };
            assert(w[j] == v[j0]);
            assert(names(v).contains(t));
            if j0 < k {
                assert(v[j0]@ != v[k]@);
            } else {
                assert(v[k]@ != v[j0]@);
            }
        }
        if names(v).contains(t) && t != v[k]@ {
            let j = choose|j: int| 0 <= j < v.len() && (#[trigger] v[j])@ == t;
            assert(j != k);
            let j1 = if j < k { j } else { j - 1 };
            assert(w[j1] == v[j]);
            assert(names(w).contains(t));
        }
    }
    assert(names(w) =~= names(v).remove(v[k]@));
    assert forall|a: int, b: int| 0 <= a < b < w.len() implies (#[trigger] w[a])@ != (
    #[trigger] w[b])@ by {
        let a0 = if a < k { a } else { a + 1 };
        let b0 = if b < k { b } else { b + 1 };
        assert(w[a] == v[a0]);
        assert(w[b] == v[b0]);
    }
}

fn position_of(list: &Vec<String>, name: &str) -> (r: Option<usize>)
    ensures
        match r {
            Some(k) => k < list@.len() && list@[k as int]@ == name@,
            None => !names(list@).contains(name@),
        },
{
    let mut k: usize = 0;
    while k < list.len()
        invariant
            k <= list@.len(),
            forall|j: int| 0 <= j < k ==> (#[trigger] list@[j])@ != name@,
        decreases list@.len() - k,
    {
        if str_eq(list[k].as_str(), name) {
            return Some(k);
        }
        k = k + 1;
    }
    None
}

/// Whether a session log tail leaves some turn open. When the tail was read from
/// the middle of the file, its first (partial) line is skipped.
pub fn has_open_turn(entries: &[Option<JsonValue>], skip_first: bool) -> (r: bool)
    ensures
        r == (exists|t: Seq<char>| #[trigger] open_turns(tail_entries(entries@, skip_first)).contains(t)),
{
    let ghost all = entries_view(entries@);
    let start: usize = if skip_first && entries.len() > 0 {
        1
    } else {
        0
    };
    let ghost read = all.skip(start as int);
    proof {
        assert(all.skip(0) == all);
        if start == 1 {
            assert(all.skip(1) == all.drop_first());
        }
    }
    let mut open: Vec<String> = Vec::new();
    let mut i: usize = start;
    proof {
        assert(names(open@) =~= Set::empty());
        assert(all.subrange(start as int, start as int).len() == 0);
    }
    while i < entries.len()
        invariant
            start <= i <= entries@.len(),
            all == entries_view(entries@),
            all.len() == entries@.len(),
            open_turns(all.subrange(start as int, i as int)) == names(open@),
            distinct_names(open@),
        decreases entries@.len() - i,
    {
        let ghost prefix = all.subrange(start as int, i as int);
        let ghost next = all.subrange(start as int, i + 1);
        proof {
            assert(next.drop_last() == prefix);
            assert(next.last() == all[i as int]);
        }
        match &entries[i] {
            Some(entry) => {
                assert(all[i as int] == Some(entry@));
                match turn_event_of(entry) {
                    Some((turn, started)) => {
                        let position = position_of(&open, turn.as_str());
                        if started {
                            match position {
                                None => {
                                    proof {
                                        lemma_names_push(open@, turn);
                                    }
                                    open.push(turn);
                                },
                                Some(k) => {
                                    proof {
                                        assert(names(open@).contains(turn@));
                                        assert(names(open@).insert(turn@) =~= names(open@));
                                    }
                                },
                            }
                        } else {
                            match position {
                                Some(k) => {
                                    proof {
                                        lemma_names_remove(open@, k as int);
                                    }
                                    open.remove(k);
                                },
                                None => {
                                    proof {
                                        assert(names(open@).remove(turn@) =~= names(open@));
                                    }
                                },
                            }
                        }
                    },
                    None => {},
                }
            },
            None => {
                assert(all[i as int] is None);
            },
        }
        i = i + 1;
    }
    proof {
        assert(all.subrange(start as int, entries@.len() as int) == read);
        assert(tail_entries(entries@, skip_first) == read);
        if open@.len() > 0 {
            assert(names(open@).contains(open@[0]@));
        } else {
            assert(names(open@) =~= Set::empty());
        }
    }
    open.len() > 0
}

/// How a turn ended, as its session log records it.
#[derive(Debug)]
pub enum SessionTurnOutcome {
    Completed(String),
    Aborted,
}

/// The outcome model: `Some(text)` for a completed turn, `None` for an aborted one.
pub open spec fn outcome_view(o: SessionTurnOutcome) -> Option<Seq<char>> {
    match o {
        SessionTurnOutcome::Completed(t) => Some(t@),
        SessionTurnOutcome::Aborted => None,
    }
}

/// What one log line says about the turn `expected`: `Some(Some(text))` when it
/// completed, `Some(None)` when it was aborted, `None` when it says nothing.
pub open spec fn outcome_of_entry(entry: Json, expected: Seq<char>) -> Option<Option<Seq<char>>> {
    let turn = match entry.at(seq!["payload"@, "turn_id"@]) {
        Some(t) => t.str_of(),
        None => None,
    };
    if entry.str_at("type"@) != Some("event_msg"@) || turn != Some(expected) {
        None
    } else {
        let kind = match entry.at(seq!["payload"@, "type"@]) {
            Some(k) => k.str_of(),
            None => None,
        };
        if kind == Some("task_complete"@) {
            let text = match entry.at(seq!["payload"@, "last_agent_message"@]) {
                Some(m) => match m.str_of() {
                    Some(t) => if trim_spec(t).len() > 0 {
                        trim_spec(t)
                    } else {
                        "Codex 回合已结束。"@
                    },
                    None => "Codex 回合已结束。"@,
                },
                None => "Codex 回合已结束。"@,
            };
            Some(Some(text))
        } else if kind == Some("turn_aborted"@) {
            Some(None)
        } else {
            None
        }
    }
}

/// The last outcome the lines record for `expected`.
pub open spec fn turn_outcome(entries: Seq<Option<Json>>, expected: Seq<char>) -> Option<
    Option<Seq<char>>,
>
    decreases entries.len(),
{
    if entries.len() == 0 {
        None
    } else {
        let found = match entries.last() {
            Some(e) => outcome_of_entry(e, expected),
            None => None,
        };
        match found {
            Some(o) => Some(o),
            None => turn_outcome(entries.drop_last(), expected),
        }
    }
}

fn outcome_of(entry: &JsonValue, expected: &str) -> (r: Option<SessionTurnOutcome>)
    ensures
        match r {
            Some(o) => outcome_of_entry(entry@, expected@) == Some(outcome_view(o)),
            None => outcome_of_entry(entry@, expected@) is None,
        },
{
    let turn_path: [&str; 2] = ["payload", "turn_id"];
    let kind_path: [&str; 2] = ["payload", "type"];
    let text_path: [&str; 2] = ["payload", "last_agent_message"];
    proof {
        assert(turn_path@.map_values(|p: &str| p@) == seq!["payload"@, "turn_id"@]);
        assert(kind_path@.map_values(|p: &str| p@) == seq!["payload"@, "type"@]);
        assert(text_path@.map_values(|p: &str| p@) == seq!["payload"@, "last_agent_message"@]);
    }
    let is_event = match entry.str_at("type") {
        Some(t) => str_eq(t, "event_msg"),
        None => false,
    };
    let same_turn = match entry.pointer(turn_path.as_slice()) {
        Some(t) => match t.as_str() {
            Some(turn) => str_eq(turn, expected),
            None => false,
        },
        None => false,
    };
    if !is_event || !same_turn {
        return None;
    }
    let kind = match entry.pointer(kind_path.as_slice()) {
        Some(k) => k.as_str(),
        None => None,
    };
    let complete = match kind {
        Some(k) => str_eq(k, "task_complete"),
        None => false,
    };
    let aborted = match kind {
        Some(k) => str_eq(k, "turn_aborted"),
        None => false,
    };
    if complete {
        let message = match entry.pointer(text_path.as_slice()) {
            Some(m) => m.as_str(),
            None => None,
        };
        let text = match message {
            Some(t) => {
                let trimmed = str_trim(t);
                if !trimmed.is_empty() {
                    trimmed.to_owned()
                } else {
                    "Codex 回合已结束。".to_owned()
                }
            },
            None => "Codex 回合已结束。".to_owned(),
        };
        Some(SessionTurnOutcome::Completed(text))
    } else if aborted {
        Some(SessionTurnOutcome::Aborted)
    } else {
        None
    }
}

/// How the turn `expected_turn_id` ended according to a session log tail, used
/// to recover a reply after a restart.
pub fn session_turn_outcome(
    entries: &[Option<JsonValue>],
    skip_first: bool,
    expected_turn_id: &str,
) -> (r: Option<SessionTurnOutcome>)
    ensures
        match r {
            Some(o) => turn_outcome(tail_entries(entries@, skip_first), expected_turn_id@) == Some(
                outcome_view(o),
            ),
            None => turn_outcome(tail_entries(entries@, skip_first), expected_turn_id@) is None,
        },
{
    let ghost all = entries_view(entries@);
    let start: usize = if skip_first && entries.len() > 0 {
        1
    } else {
        0
    };
    proof {
        if start == 1 {
            assert(all.skip(1) == all.drop_first());
        } else {
            assert(all.skip(0) == all);
        }
        assert(tail_entries(entries@, skip_first) == all.skip(start as int));
    }
    let mut n: usize = entries.len();
    while n > start
        invariant
            start <= n <= entries@.len(),
            all == entries_view(entries@),
            all.len() == entries@.len(),
            turn_outcome(all.skip(start as int), expected_turn_id@) == turn_outcome(
                all.subrange(start as int, n as int),
                expected_turn_id@,
            ),
            tail_entries(entries@, skip_first) == all.skip(start as int),
        decreases n,
    {
        let ghost part = all.subrange(start as int, n as int);
        proof {
            assert(part.last() == all[n - 1]);
            assert(part.drop_last() == all.subrange(start as int, n - 1));
        }
        match &entries[n - 1] {
            Some(entry) => {
                assert(all[n - 1] == Some(entry@));
                match outcome_of(entry, expected_turn_id) {
                    Some(o) => {
                        return Some(o);
                    },
                    None => {},
                }
            },
            None => {
                assert(all[n - 1] is None);
            },
        }
        n = n - 1;
    }
    proof {
        assert(all.subrange(start as int, start as int).len() == 0);
    }
    None
}

/// A listed task: `(id, title, cwd, status, updated_at, control_mode)`.
pub open spec fn summary_view(t: RemoteTaskSummary) -> (Seq<char>, Seq<char>, Seq<char>, Seq<char>, i64, Seq<char>) {
    (t.id@, t.title@, t.cwd@, t.status@, t.updated_at, t.control_mode@)
}

/// How a thread is listed. `open_turn` says whether its session file shows a
/// turn still running; a thread the App Server reports no status for is then
/// listed as running.
pub open spec fn thread_summary(t: ThreadMetadata, open_turn: bool) -> (Seq<char>, Seq<char>, Seq<char>, Seq<char>, i64, Seq<char>) {
    let status = match t.status {
        Some(s) => Some(s@),
        None => if t.path is Some && open_turn {
            Some("running"@)
        } else {
            None
        },
    };
    let title = match t.name {
        Some(n) => n@,
        None => match file_name_of(t.cwd@) {
            Some(name) => name,
            None => "未命名任务"@,
        },
    };
    (
        t.id@,
        title,
        t.cwd@,
        match status {
            Some(s) => s,
            None => "idle"@,
        },
        t.updated_at,
        if status is Some {
            "observe"@
        } else {
            "available"@
        },
    )
}

/// The listed tasks for the first `n` threads: sub-agent threads are left out.
pub open spec fn summaries(threads: Seq<ThreadMetadata>, open: Seq<bool>, n: int) -> Seq<(Seq<char>, Seq<char>, Seq<char>, Seq<char>, i64, Seq<char>)>
    decreases n,
{
    if n <= 0 {
        Seq::empty()
    } else {
        let before = summaries(threads, open, n - 1);
        if threads[n - 1].parent_thread_id is None {
            before.push(thread_summary(threads[n - 1], open[n - 1]))
        } else {
            before
        }
    }
}

/// Lists the top-level Codex threads for WeChat. `open_turns[i]` says whether
/// the session file of `threads[i]` shows a turn still running.
pub fn summarize_threads(threads: Vec<ThreadMetadata>, open_turns: &[bool]) -> (r: Vec<RemoteTaskSummary>)
    requires
        open_turns@.len() == threads@.len(),
    ensures
        r@.map_values(|t: RemoteTaskSummary| summary_view(t)) == summaries(
            threads@,
            open_turns@,
            threads@.len() as int,
        ),
{
    let mut out: Vec<RemoteTaskSummary> = Vec::new();
    let mut i: usize = 0;
    while i < threads.len()
        invariant
            i <= threads@.len(),
            open_turns@.len() == threads@.len(),
            out@.map_values(|t: RemoteTaskSummary| summary_view(t)) == summaries(
                threads@,
                open_turns@,
                i as int,
            ),
        decreases threads@.len() - i,
    {
        let thread = &threads[i];
        if thread.parent_thread_id.is_none() {
            let status: Option<String> = match &thread.status {
                Some(s) => Some(s.clone()),
                None => if thread.path.is_some() && open_turns[i] {
                    Some("running".to_owned())
                } else {
                    None
                },
            };
            let title = match &thread.name {
                Some(n) => n.clone(),
                None => match path_title(thread.cwd.as_str()) {
                    Some(name) => name,
                    None => "未命名任务".to_owned(),
                },
            };
            let control_mode = if status.is_some() {
                "observe".to_owned()
            } else {
                "available".to_owned()
            };
            let status_text = match status {
                Some(s) => s,
                None => "idle".to_owned(),
            };
            let summary = RemoteTaskSummary {
                id: thread.id.clone(),
                title,
                cwd: thread.cwd.clone(),
                status: status_text,
                updated_at: thread.updated_at,
                control_mode,
            };
            let ghost before = out@;
            out.push(summary);
            proof {
                assert(out@.map_values(|t: RemoteTaskSummary| summary_view(t)) == before.map_values(
                    |t: RemoteTaskSummary| summary_view(t),
                ).push(summary_view(out@[out@.len() - 1])));
            }
        }
        i = i + 1;
    }
    out
}

/// Only HTTPS hosts under `weixin.qq.com` are accepted; the address is reduced
/// to its origin.
pub open spec fn weixin_base_url(value: Seq<char>) -> Result<Seq<char>, Seq<char>> {
    match crate::web::parsed_url(value) {
        Err(e) => Err("微信服务地址无效："@ + e),
        Ok(url) => match url.host {
            None => Err("微信服务地址缺少域名。"@),
            Some(host) => if url.scheme != "https"@ || !(host == "weixin.qq.com"@
                || crate::text::has_suffix(host, ".weixin.qq.com"@)) {
                Err("微信服务地址必须使用 weixin.qq.com 的 HTTPS 域名。"@)
            } else {
                Ok("https://"@ + host)
            },
        },
    }
}

pub open spec fn result_view(r: Result<String, String>) -> Result<Seq<char>, Seq<char>> {
    match r {
        Ok(s) => Ok(s@),
        Err(e) => Err(e@),
    }
}

/// Checks a configured WeChat service address and reduces it to its origin.
pub fn normalize_weixin_base_url(value: &str) -> (r: Result<String, String>)
    ensures
        result_view(r) == weixin_base_url(value@),
{
    let url = match crate::web::parse_url(value) {
        Ok(url) => url,
        Err(e) => {
            let mut message = "微信服务地址无效：".to_owned();
            message.append(e.as_str());
            return Err(message);
        },
    };
    let host = match &url.host {
        Some(host) => host.as_str(),
        None => {
            return Err("微信服务地址缺少域名。".to_owned());
        },
    };
    if !str_eq(url.scheme.as_str(), "https") || !(str_eq(host, "weixin.qq.com")
        || crate::text::str_ends_with(host, ".weixin.qq.com")) {
        return Err("微信服务地址必须使用 weixin.qq.com 的 HTTPS 域名。".to_owned());
    }
    let mut out = "https://".to_owned();
    out.append(host);
    Ok(out)
}

pub open spec fn endpoint_text(base_url: Seq<char>, endpoint: Seq<char>) -> Result<Seq<char>, Seq<char>> {
    match weixin_base_url(base_url) {
        Err(e) => Err(e),
        Ok(base) => match crate::web::joined_url(base + "/"@, endpoint) {
            Ok(url) => Ok(url),
            Err((stage, e)) => if stage == 0 {
                Err("微信服务地址无效："@ + e)
            } else {
                Err("微信接口地址无效："@ + e)
            },
        },
    }
}

/// The full address of a WeChat API endpoint under the configured service.
pub fn endpoint_url(base_url: &str, endpoint: &str) -> (r: Result<String, String>)
    ensures
        result_view(r) == endpoint_text(base_url@, endpoint@),
{
    let base = match normalize_weixin_base_url(base_url) {
        Ok(base) => base,
        Err(e) => {
            return Err(e);
        },
    };
    let mut root = base;
    root.append("/");
    match crate::web::join_url(root.as_str(), endpoint) {
        Ok(url) => Ok(url),
        Err((stage, e)) => {
            let mut message = if stage == 0 {
                "微信服务地址无效：".to_owned()
            } else {
                "微信接口地址无效：".to_owned()
            };
            message.append(e.as_str());
            Err(message)
        },
    }
}

} // verus!
