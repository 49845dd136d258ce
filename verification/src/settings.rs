//! Codex's everyday settings: reading them from the configuration, checking a
//! change, turning it into configuration edits, and undoing it.
use vstd::prelude::*;
use crate::json::{Json, JsonNumber, JsonValue, NumberModel};
use crate::text::{str_eq, str_trim, trim_spec};

verus! {

broadcast use vstd::string::group_string_axioms;

/// The settings the UI edits.
#[derive(Debug)]
pub struct CodexSettings {
    pub model_reasoning_effort: Option<String>,
    pub plan_mode_reasoning_effort: Option<String>,
    pub model_reasoning_summary: Option<String>,
    pub model_verbosity: Option<String>,
    pub personality: Option<String>,
    pub approval_policy: String,
    pub approvals_reviewer: String,
    pub sandbox_mode: String,
    pub workspace_network_access: bool,
    pub web_search: String,
    pub history_persistence: String,
    pub auto_compact_token_limit: Option<u64>,
    pub auto_compact_scope: String,
    pub memories_enabled: bool,
    pub memories_use: bool,
    pub memories_generate: bool,
    pub memories_disable_on_external_context: bool,
    pub multi_agent_enabled: bool,
    pub goals_enabled: bool,
    pub hooks_enabled: bool,
    pub unified_exec_enabled: bool,
    pub fast_mode_enabled: bool,
    pub apps_enabled: bool,
    pub hide_agent_reasoning: bool,
    pub show_raw_agent_reasoning: bool,
}

/// The settings shown in the UI.
#[derive(Debug)]
pub struct SettingsSnapshot {
    pub fetched_at: String,
    pub config_path: String,
    pub version: Option<String>,
    pub settings: CodexSettings,
    pub restore_available: bool,
    pub warnings: Vec<String>,
}

/// A request to change the settings.
#[derive(Debug)]
pub struct SettingsApplyRequest {
    pub settings: CodexSettings,
    pub expected_version: Option<String>,
}

/// The settings before a change, and which keys the change touched.
#[derive(Debug)]
pub struct SettingsRestorePoint {
    pub settings: CodexSettings,
    pub changed_keys: Vec<String>,
}

/// The configuration keys the settings map to, in the order edits are made.
pub open spec fn setting_keys() -> Seq<Seq<char>> {
    seq![
        "model_reasoning_effort"@,
        "plan_mode_reasoning_effort"@,
        "model_reasoning_summary"@,
        "model_verbosity"@,
        "personality"@,
        "approval_policy"@,
        "approvals_reviewer"@,
        "sandbox_mode"@,
        "sandbox_workspace_write.network_access"@,
        "web_search"@,
        "history.persistence"@,
        "model_auto_compact_token_limit"@,
        "model_auto_compact_token_limit_scope"@,
        "features.memories"@,
        "memories.use_memories"@,
        "memories.generate_memories"@,
        "memories.disable_on_external_context"@,
        "features.multi_agent"@,
        "features.goals"@,
        "features.hooks"@,
        "features.unified_exec"@,
        "features.fast_mode"@,
        "features.apps"@,
        "hide_agent_reasoning"@,
        "show_raw_agent_reasoning"@,
    ]
}

fn setting_key(i: usize) -> (r: &'static str)
    requires
        i < 25,
    ensures
        r@ == setting_keys()[i as int],
{
    if i == 0 { "model_reasoning_effort" }
    else if i == 1 { "plan_mode_reasoning_effort" }
    else if i == 2 { "model_reasoning_summary" }
    else if i == 3 { "model_verbosity" }
    else if i == 4 { "personality" }
    else if i == 5 { "approval_policy" }
    else if i == 6 { "approvals_reviewer" }
    else if i == 7 { "sandbox_mode" }
    else if i == 8 { "sandbox_workspace_write.network_access" }
    else if i == 9 { "web_search" }
    else if i == 10 { "history.persistence" }
    else if i == 11 { "model_auto_compact_token_limit" }
    else if i == 12 { "model_auto_compact_token_limit_scope" }
    else if i == 13 { "features.memories" }
    else if i == 14 { "memories.use_memories" }
    else if i == 15 { "memories.generate_memories" }
    else if i == 16 { "memories.disable_on_external_context" }
    else if i == 17 { "features.multi_agent" }
    else if i == 18 { "features.goals" }
    else if i == 19 { "features.hooks" }
    else if i == 20 { "features.unified_exec" }
    else if i == 21 { "features.fast_mode" }
    else if i == 22 { "features.apps" }
    else if i == 23 { "hide_agent_reasoning" }
    else { "show_raw_agent_reasoning" }
}

pub open spec fn opt_str_json(v: Option<String>) -> Json {
    match v {
        Some(s) => Json::Str(s@),
        None => Json::Null,
    }
}

pub open spec fn opt_u64_json(v: Option<u64>) -> Json {
    match v {
        Some(n) => Json::Number(NumberModel::Unsigned(n)),
        None => Json::Null,
    }
}

/// The JSON value written for the setting at `key`. A granular approval policy
/// cannot be written back; an unknown key is refused.
pub open spec fn setting_json(s: CodexSettings, key: Seq<char>) -> Result<Json, Seq<char>> {
    if key == "model_reasoning_effort"@ { Ok(opt_str_json(s.model_reasoning_effort)) }
    else if key == "plan_mode_reasoning_effort"@ { Ok(opt_str_json(s.plan_mode_reasoning_effort)) }
    else if key == "model_reasoning_summary"@ { Ok(opt_str_json(s.model_reasoning_summary)) }
    else if key == "model_verbosity"@ { Ok(opt_str_json(s.model_verbosity)) }
    else if key == "personality"@ { Ok(opt_str_json(s.personality)) }
    else if key == "approval_policy"@ {
        if s.approval_policy@ == "granular"@ {
            Err("精细审批策略需要在高级配置中逐项编辑。"@)
        } else {
            Ok(Json::Str(s.approval_policy@))
        }
    }
    else if key == "approvals_reviewer"@ { Ok(Json::Str(s.approvals_reviewer@)) }
    else if key == "sandbox_mode"@ { Ok(Json::Str(s.sandbox_mode@)) }
    else if key == "sandbox_workspace_write.network_access"@ { Ok(Json::Bool(s.workspace_network_access)) }
    else if key == "web_search"@ { Ok(Json::Str(s.web_search@)) }
    else if key == "history.persistence"@ { Ok(Json::Str(s.history_persistence@)) }
    else if key == "model_auto_compact_token_limit"@ { Ok(opt_u64_json(s.auto_compact_token_limit)) }
    else if key == "model_auto_compact_token_limit_scope"@ { Ok(Json::Str(s.auto_compact_scope@)) }
    else if key == "features.memories"@ { Ok(Json::Bool(s.memories_enabled)) }
    else if key == "memories.use_memories"@ { Ok(Json::Bool(s.memories_use)) }
    else if key == "memories.generate_memories"@ { Ok(Json::Bool(s.memories_generate)) }
    else if key == "memories.disable_on_external_context"@ { Ok(Json::Bool(s.memories_disable_on_external_context)) }
    else if key == "features.multi_agent"@ { Ok(Json::Bool(s.multi_agent_enabled)) }
    else if key == "features.goals"@ { Ok(Json::Bool(s.goals_enabled)) }
    else if key == "features.hooks"@ { Ok(Json::Bool(s.hooks_enabled)) }
    else if key == "features.unified_exec"@ { Ok(Json::Bool(s.unified_exec_enabled)) }
    else if key == "features.fast_mode"@ { Ok(Json::Bool(s.fast_mode_enabled)) }
    else if key == "features.apps"@ { Ok(Json::Bool(s.apps_enabled)) }
    else if key == "hide_agent_reasoning"@ { Ok(Json::Bool(s.hide_agent_reasoning)) }
    else if key == "show_raw_agent_reasoning"@ { Ok(Json::Bool(s.show_raw_agent_reasoning)) }
    else { Err("未知配置字段："@ + key) }
}

fn opt_text(v: &Option<String>) -> (r: JsonValue)
    ensures
        r@ == opt_str_json(*v),
{
    match v {
        Some(s) => JsonValue::String(s.clone()),
        None => JsonValue::Null,
    }
}

/// The JSON value written for one setting.
pub fn setting_value(settings: &CodexSettings, key: &str) -> (r: Result<JsonValue, String>)
    ensures
        match r {
            Ok(v) => setting_json(*settings, key@) == Ok::<Json, Seq<char>>(v@),
            Err(e) => setting_json(*settings, key@) == Err::<Json, Seq<char>>(e@),
        },
{
    let s = settings;
    if str_eq(key, "model_reasoning_effort") { Ok(opt_text(&s.model_reasoning_effort)) }
    else if str_eq(key, "plan_mode_reasoning_effort") { Ok(opt_text(&s.plan_mode_reasoning_effort)) }
    else if str_eq(key, "model_reasoning_summary") { Ok(opt_text(&s.model_reasoning_summary)) }
    else if str_eq(key, "model_verbosity") { Ok(opt_text(&s.model_verbosity)) }
    else if str_eq(key, "personality") { Ok(opt_text(&s.personality)) }
    else if str_eq(key, "approval_policy") {
        if str_eq(s.approval_policy.as_str(), "granular") {
            Err("精细审批策略需要在高级配置中逐项编辑。".to_owned())
        } else {
            Ok(JsonValue::String(s.approval_policy.clone()))
        }
    }
    else if str_eq(key, "approvals_reviewer") { Ok(JsonValue::String(s.approvals_reviewer.clone())) }
    else if str_eq(key, "sandbox_mode") { Ok(JsonValue::String(s.sandbox_mode.clone())) }
    else if str_eq(key, "sandbox_workspace_write.network_access") { Ok(JsonValue::Bool(s.workspace_network_access)) }
    else if str_eq(key, "web_search") { Ok(JsonValue::String(s.web_search.clone())) }
    else if str_eq(key, "history.persistence") { Ok(JsonValue::String(s.history_persistence.clone())) }
    else if str_eq(key, "model_auto_compact_token_limit") {
        match s.auto_compact_token_limit {
            Some(n) => Ok(JsonValue::Number(JsonNumber::Unsigned(n))),
            None => Ok(JsonValue::Null),
        }
    }
    else if str_eq(key, "model_auto_compact_token_limit_scope") { Ok(JsonValue::String(s.auto_compact_scope.clone())) }
    else if str_eq(key, "features.memories") { Ok(JsonValue::Bool(s.memories_enabled)) }
    else if str_eq(key, "memories.use_memories") { Ok(JsonValue::Bool(s.memories_use)) }
    else if str_eq(key, "memories.generate_memories") { Ok(JsonValue::Bool(s.memories_generate)) }
    else if str_eq(key, "memories.disable_on_external_context") { Ok(JsonValue::Bool(s.memories_disable_on_external_context)) }
    else if str_eq(key, "features.multi_agent") { Ok(JsonValue::Bool(s.multi_agent_enabled)) }
    else if str_eq(key, "features.goals") { Ok(JsonValue::Bool(s.goals_enabled)) }
    else if str_eq(key, "features.hooks") { Ok(JsonValue::Bool(s.hooks_enabled)) }
    else if str_eq(key, "features.unified_exec") { Ok(JsonValue::Bool(s.unified_exec_enabled)) }
    else if str_eq(key, "features.fast_mode") { Ok(JsonValue::Bool(s.fast_mode_enabled)) }
    else if str_eq(key, "features.apps") { Ok(JsonValue::Bool(s.apps_enabled)) }
    else if str_eq(key, "hide_agent_reasoning") { Ok(JsonValue::Bool(s.hide_agent_reasoning)) }
    else if str_eq(key, "show_raw_agent_reasoning") { Ok(JsonValue::Bool(s.show_raw_agent_reasoning)) }
    else {
        let mut message = "未知配置字段：".to_owned();
        message.append(key);
        Err(message)
    }
}

pub open spec fn strs_view(v: Seq<&str>) -> Seq<Seq<char>> {
    v.map_values(|x: &str| x@)
}

fn one_of(value: &str, allowed: &[&str]) -> (r: bool)
    ensures
        r == strs_view(allowed@).contains(value@),
{
    let mut i: usize = 0;
    while i < allowed.len()
        invariant
            i <= allowed@.len(),
            forall|k: int| 0 <= k < i ==> allowed@[k]@ != value@,
        decreases allowed@.len() - i,
    {
        if str_eq(allowed[i], value) {
            assert(strs_view(allowed@)[i as int] == value@);
            return true;
        }
        i = i + 1;
    }
    proof {
        if strs_view(allowed@).contains(value@) {
            let k = choose|k: int| 0 <= k < allowed@.len() && strs_view(allowed@)[k] == value@;
            assert(allowed@[k]@ == value@);
        }
    }
    false
}

pub open spec fn option_ok(value: Option<String>, allowed: Seq<Seq<char>>) -> bool {
    match value {
        Some(v) => allowed.contains(v@),
        None => true,
    }
}

/// The first reason the settings are refused, if any.
pub open spec fn settings_error(s: CodexSettings) -> Option<Seq<char>> {
    if !option_ok(s.model_reasoning_effort, seq!["minimal"@, "low"@, "medium"@, "high"@, "xhigh"@]) {
        Some("推理强度 不是 Codex 支持的值。"@)
    } else if !option_ok(s.plan_mode_reasoning_effort, seq!["none"@, "minimal"@, "low"@, "medium"@, "high"@, "xhigh"@]) {
        Some("计划模式推理强度 不是 Codex 支持的值。"@)
    } else if !option_ok(s.model_reasoning_summary, seq!["auto"@, "concise"@, "detailed"@, "none"@]) {
        Some("推理摘要 不是 Codex 支持的值。"@)
    } else if !option_ok(s.model_verbosity, seq!["low"@, "medium"@, "high"@]) {
        Some("回答详细度 不是 Codex 支持的值。"@)
    } else if !option_ok(s.personality, seq!["none"@, "friendly"@, "pragmatic"@]) {
        Some("沟通风格 不是 Codex 支持的值。"@)
    } else if !seq!["untrusted"@, "on-request"@, "never"@, "granular"@].contains(s.approval_policy@) {
        Some("审批方式不是 Codex 支持的值。"@)
    } else if !seq!["user"@, "auto_review"@].contains(s.approvals_reviewer@) {
        Some("审批人不是 Codex 支持的值。"@)
    } else if !seq!["read-only"@, "workspace-write"@, "danger-full-access"@].contains(s.sandbox_mode@) {
        Some("文件权限不是 Codex 支持的值。"@)
    } else if !seq!["disabled"@, "cached"@, "indexed"@, "live"@].contains(s.web_search@) {
        Some("联网搜索模式不是 Codex 支持的值。"@)
    } else if !seq!["save-all"@, "none"@].contains(s.history_persistence@) {
        Some("历史保存模式不是 Codex 支持的值。"@)
    } else if !seq!["total"@, "body_after_prefix"@].contains(s.auto_compact_scope@) {
        Some("自动压缩计算范围不是 Codex 支持的值。"@)
    } else if s.auto_compact_token_limit matches Some(n) && !(16_000 <= n <= 10_000_000) {
        Some("自动压缩阈值必须在 16,000 到 10,000,000 Token 之间。"@)
    } else if s.hide_agent_reasoning && s.show_raw_agent_reasoning {
        Some("不能同时隐藏推理过程并显示原始推理。"@)
    } else {
        None
    }
}

fn option_allowed(value: &Option<String>, allowed: &[&str]) -> (r: bool)
    ensures
        r == option_ok(*value, strs_view(allowed@)),
{
    match value {
        Some(v) => one_of(v.as_str(), allowed),
        None => true,
    }
}

/// Checks every setting against what Codex accepts.
pub fn validate_settings(settings: &CodexSettings) -> (r: Result<(), String>)
    ensures
        match r {
            Ok(()) => settings_error(*settings) is None,
            Err(e) => settings_error(*settings) == Some(e@),
        },
{
    let s = settings;
    let a1: [&str; 5] = ["minimal", "low", "medium", "high", "xhigh"];
    let a2: [&str; 6] = ["none", "minimal", "low", "medium", "high", "xhigh"];
    let a3: [&str; 4] = ["auto", "concise", "detailed", "none"];
    let a4: [&str; 3] = ["low", "medium", "high"];
    let a5: [&str; 3] = ["none", "friendly", "pragmatic"];
    let a6: [&str; 4] = ["untrusted", "on-request", "never", "granular"];
    let a7: [&str; 2] = ["user", "auto_review"];
    let a8: [&str; 3] = ["read-only", "workspace-write", "danger-full-access"];
    let a9: [&str; 4] = ["disabled", "cached", "indexed", "live"];
    let a10: [&str; 2] = ["save-all", "none"];
    let a11: [&str; 2] = ["total", "body_after_prefix"];
    proof {
        assert(strs_view(a1@) == seq!["minimal"@, "low"@, "medium"@, "high"@, "xhigh"@]);
        assert(strs_view(a2@) == seq!["none"@, "minimal"@, "low"@, "medium"@, "high"@, "xhigh"@]);
        assert(strs_view(a3@) == seq!["auto"@, "concise"@, "detailed"@, "none"@]);
        assert(strs_view(a4@) == seq!["low"@, "medium"@, "high"@]);
        assert(strs_view(a5@) == seq!["none"@, "friendly"@, "pragmatic"@]);
        assert(strs_view(a6@) == seq!["untrusted"@, "on-request"@, "never"@, "granular"@]);
        assert(strs_view(a7@) == seq!["user"@, "auto_review"@]);
        assert(strs_view(a8@) == seq!["read-only"@, "workspace-write"@, "danger-full-access"@]);
        assert(strs_view(a9@) == seq!["disabled"@, "cached"@, "indexed"@, "live"@]);
        assert(strs_view(a10@) == seq!["save-all"@, "none"@]);
        assert(strs_view(a11@) == seq!["total"@, "body_after_prefix"@]);
    }
    if !option_allowed(&s.model_reasoning_effort, a1.as_slice()) {
        return Err("推理强度 不是 Codex 支持的值。".to_owned());
    }
    if !option_allowed(&s.plan_mode_reasoning_effort, a2.as_slice()) {
        return Err("计划模式推理强度 不是 Codex 支持的值。".to_owned());
    }
    if !option_allowed(&s.model_reasoning_summary, a3.as_slice()) {
        return Err("推理摘要 不是 Codex 支持的值。".to_owned());
    }
    if !option_allowed(&s.model_verbosity, a4.as_slice()) {
        return Err("回答详细度 不是 Codex 支持的值。".to_owned());
    }
    if !option_allowed(&s.personality, a5.as_slice()) {
        return Err("沟通风格 不是 Codex 支持的值。".to_owned());
    }
    if !one_of(s.approval_policy.as_str(), a6.as_slice()) {
        return Err("审批方式不是 Codex 支持的值。".to_owned());
    }
    if !one_of(s.approvals_reviewer.as_str(), a7.as_slice()) {
        return Err("审批人不是 Codex 支持的值。".to_owned());
    }
    if !one_of(s.sandbox_mode.as_str(), a8.as_slice()) {
        return Err("文件权限不是 Codex 支持的值。".to_owned());
    }
    if !one_of(s.web_search.as_str(), a9.as_slice()) {
        return Err("联网搜索模式不是 Codex 支持的值。".to_owned());
    }
    if !one_of(s.history_persistence.as_str(), a10.as_slice()) {
        return Err("历史保存模式不是 Codex 支持的值。".to_owned());
    }
    if !one_of(s.auto_compact_scope.as_str(), a11.as_slice()) {
        return Err("自动压缩计算范围不是 Codex 支持的值。".to_owned());
    }
    match s.auto_compact_token_limit {
        Some(n) => {
            if n < 16_000 || n > 10_000_000 {
                return Err("自动压缩阈值必须在 16,000 到 10,000,000 Token 之间。".to_owned());
            }
        },
        None => {},
    }
    if s.hide_agent_reasoning && s.show_raw_agent_reasoning {
        return Err("不能同时隐藏推理过程并显示原始推理。".to_owned());
    }
    Ok(())
}

/// One `config/batchWrite` edit that replaces a key.
pub open spec fn replace_edit(key: Seq<char>, value: Json) -> Json {
    crate::provider::edit_model(key, value, "replace"@)
}

/// The edits and changed keys for the first `n` setting keys, or why the change
/// is refused: a granular approval policy can only be kept as it is.
pub open spec fn settings_edits(before: CodexSettings, after: CodexSettings, n: int) -> Result<(Seq<Json>, Seq<Seq<char>>), Seq<char>>
    decreases n,
{
    if n <= 0 {
        Ok((Seq::empty(), Seq::empty()))
    } else {
        match settings_edits(before, after, n - 1) {
            Err(e) => Err(e),
            Ok((edits, keys)) => {
                let key = setting_keys()[n - 1];
                match (setting_json(before, key), setting_json(after, key)) {
                    (Ok(b), Ok(a)) => if b != a {
                        Ok((edits.push(replace_edit(key, a)), keys.push(key)))
                    } else {
                        Ok((edits, keys))
                    },
                    _ => if key == "approval_policy"@ && before.approval_policy@ == after.approval_policy@ {
                        Ok((edits, keys))
                    } else {
                        Err("精细审批策略只能保留或替换为普通预设。"@)
                    },
                }
            },
        }
    }
}

proof fn lemma_edits_error_sticks(before: CodexSettings, after: CodexSettings, i: int, n: int)
    requires
        0 <= i <= n,
        settings_edits(before, after, i) is Err,
    ensures
        settings_edits(before, after, n) == settings_edits(before, after, i),
    decreases n - i,
{
    if n > i {
        lemma_edits_error_sticks(before, after, i, n - 1);
    }
}

proof fn lemma_restore_error_sticks(settings: CodexSettings, keys: Seq<Seq<char>>, i: int, n: int)
    requires
        0 <= i <= n,
        restore_edits_upto(settings, keys, i) is Err,
    ensures
        restore_edits_upto(settings, keys, n) == restore_edits_upto(settings, keys, i),
    decreases n - i,
{
    if n > i {
        lemma_restore_error_sticks(settings, keys, i, n - 1);
    }
}

pub open spec fn edits_result(before: CodexSettings, after: CodexSettings) -> Result<(Seq<Json>, Seq<Seq<char>>), Seq<char>> {
    match settings_error(after) {
        Some(e) => Err(e),
        None => settings_edits(before, after, 25),
    }
}

pub open spec fn json_view(v: Seq<JsonValue>) -> Seq<Json> {
    v.map_values(|x: JsonValue| x@)
}

pub open spec fn string_view(v: Seq<String>) -> Seq<Seq<char>> {
    v.map_values(|x: String| x@)
}

/// The configuration edits that turn `before` into `after`, one per setting that
/// differs, and the keys they change.
pub fn build_settings_edits(before: &CodexSettings, after: &CodexSettings) -> (r: Result<
    (Vec<JsonValue>, Vec<String>),
    String,
>)
    ensures
        match r {
            Ok((edits, keys)) => edits_result(*before, *after) == Ok::<
                (Seq<Json>, Seq<Seq<char>>),
                Seq<char>,
            >((json_view(edits@), string_view(keys@))),
            Err(e) => edits_result(*before, *after) == Err::<(Seq<Json>, Seq<Seq<char>>), Seq<char>>(
                e@,
            ),
        },
{
    validate_settings(after)?;
    let mut edits: Vec<JsonValue> = Vec::new();
    let mut keys: Vec<String> = Vec::new();
    let mut i: usize = 0;
    assert(json_view(edits@) =~= Seq::<Json>::empty());
    assert(string_view(keys@) =~= Seq::<Seq<char>>::empty());
    while i < 25
        invariant
            i <= 25,
            settings_error(*after) is None,
            settings_edits(*before, *after, i as int) == Ok::<
                (Seq<Json>, Seq<Seq<char>>),
                Seq<char>,
            >((json_view(edits@), string_view(keys@))),
        decreases 25 - i,
    {
        let key = setting_key(i);
        let b = setting_value(before, key);
        let a = setting_value(after, key);
        match (b, a) {
            (Ok(bv), Ok(av)) => {
                if !bv.same(&av) {
                    let ghost old_edits = json_view(edits@);
                    let ghost old_keys = string_view(keys@);
                    edits.push(crate::provider::edit(key, av, "replace"));
                    keys.push(key.to_owned());
                    assert(json_view(edits@) == old_edits.push(json_view(edits@).last()));
                    assert(string_view(keys@) == old_keys.push(key@));
                }
            },
            _ => {
                if !(str_eq(key, "approval_policy") && str_eq(
                    before.approval_policy.as_str(),
                    after.approval_policy.as_str(),
                )) {
                    proof {
                        lemma_edits_error_sticks(*before, *after, i + 1, 25);
                    }
                    return Err("精细审批策略只能保留或替换为普通预设。".to_owned());
                }
            },
        }
        i = i + 1;
    }
    Ok((edits, keys))
}

pub open spec fn opt_view(v: Option<String>) -> Option<Seq<char>> {
    match v {
        Some(s) => Some(s@),
        None => None,
    }
}

/// Two settings values that agree on every field's content.
pub open spec fn same_settings(a: CodexSettings, b: CodexSettings) -> bool {
    &&& opt_view(a.model_reasoning_effort) == opt_view(b.model_reasoning_effort)
    &&& opt_view(a.plan_mode_reasoning_effort) == opt_view(b.plan_mode_reasoning_effort)
    &&& opt_view(a.model_reasoning_summary) == opt_view(b.model_reasoning_summary)
    &&& opt_view(a.model_verbosity) == opt_view(b.model_verbosity)
    &&& opt_view(a.personality) == opt_view(b.personality)
    &&& a.approval_policy@ == b.approval_policy@
    &&& a.approvals_reviewer@ == b.approvals_reviewer@
    &&& a.sandbox_mode@ == b.sandbox_mode@
    &&& a.workspace_network_access == b.workspace_network_access
    &&& a.web_search@ == b.web_search@
    &&& a.history_persistence@ == b.history_persistence@
    &&& a.auto_compact_token_limit == b.auto_compact_token_limit
    &&& a.auto_compact_scope@ == b.auto_compact_scope@
    &&& a.memories_enabled == b.memories_enabled
    &&& a.memories_use == b.memories_use
    &&& a.memories_generate == b.memories_generate
    &&& a.memories_disable_on_external_context == b.memories_disable_on_external_context
    &&& a.multi_agent_enabled == b.multi_agent_enabled
    &&& a.goals_enabled == b.goals_enabled
    &&& a.hooks_enabled == b.hooks_enabled
    &&& a.unified_exec_enabled == b.unified_exec_enabled
    &&& a.fast_mode_enabled == b.fast_mode_enabled
    &&& a.apps_enabled == b.apps_enabled
    &&& a.hide_agent_reasoning == b.hide_agent_reasoning
    &&& a.show_raw_agent_reasoning == b.show_raw_agent_reasoning
}

fn copy_opt(v: &Option<String>) -> (r: Option<String>)
    ensures
        opt_view(r) == opt_view(*v),
{
    match v {
        Some(s) => Some(s.clone()),
        None => None,
    }
}

/// A copy of the settings.
pub fn copy_settings(s: &CodexSettings) -> (r: CodexSettings)
    ensures
        same_settings(r, *s),
{
    CodexSettings {
        model_reasoning_effort: copy_opt(&s.model_reasoning_effort),
        plan_mode_reasoning_effort: copy_opt(&s.plan_mode_reasoning_effort),
        model_reasoning_summary: copy_opt(&s.model_reasoning_summary),
        model_verbosity: copy_opt(&s.model_verbosity),
        personality: copy_opt(&s.personality),
        approval_policy: s.approval_policy.clone(),
        approvals_reviewer: s.approvals_reviewer.clone(),
        sandbox_mode: s.sandbox_mode.clone(),
        workspace_network_access: s.workspace_network_access,
        web_search: s.web_search.clone(),
        history_persistence: s.history_persistence.clone(),
        auto_compact_token_limit: s.auto_compact_token_limit,
        auto_compact_scope: s.auto_compact_scope.clone(),
        memories_enabled: s.memories_enabled,
        memories_use: s.memories_use,
        memories_generate: s.memories_generate,
        memories_disable_on_external_context: s.memories_disable_on_external_context,
        multi_agent_enabled: s.multi_agent_enabled,
        goals_enabled: s.goals_enabled,
        hooks_enabled: s.hooks_enabled,
        unified_exec_enabled: s.unified_exec_enabled,
        fast_mode_enabled: s.fast_mode_enabled,
        apps_enabled: s.apps_enabled,
        hide_agent_reasoning: s.hide_agent_reasoning,
        show_raw_agent_reasoning: s.show_raw_agent_reasoning,
    }
}

/// Settings with the same content write the same values and fail the same checks.
pub proof fn lemma_same_settings(a: CodexSettings, b: CodexSettings, key: Seq<char>)
    requires
        same_settings(a, b),
    ensures
        setting_json(a, key) == setting_json(b, key),
        settings_error(a) == settings_error(b),
{
}

/// The settings before a change and the keys it touched.
pub fn restore_point(settings: &CodexSettings, changed_keys: Vec<String>) -> (r: SettingsRestorePoint)
    ensures
        same_settings(r.settings, *settings),
        r.changed_keys == changed_keys,
{
    SettingsRestorePoint { settings: copy_settings(settings), changed_keys }
}

/// The edits that put the changed keys back as the restore point records them.
pub open spec fn restore_edits_result(point: SettingsRestorePoint) -> Result<Seq<Json>, Seq<char>> {
    match settings_error(point.settings) {
        Some(e) => Err(e),
        None => restore_edits_upto(point.settings, string_view(point.changed_keys@), point.changed_keys@.len() as int),
    }
}

pub open spec fn restore_edits_upto(settings: CodexSettings, keys: Seq<Seq<char>>, n: int) -> Result<Seq<Json>, Seq<char>>
    decreases n,
{
    if n <= 0 {
        Ok(Seq::empty())
    } else {
        match restore_edits_upto(settings, keys, n - 1) {
            Err(e) => Err(e),
            Ok(edits) => match setting_json(settings, keys[n - 1]) {
                Ok(v) => Ok(edits.push(replace_edit(keys[n - 1], v))),
                Err(e) => Err(e),
            },
        }
    }
}

/// The configuration edits that undo a settings change.
pub fn restore_edits(point: &SettingsRestorePoint) -> (r: Result<Vec<JsonValue>, String>)
    ensures
        match r {
            Ok(edits) => restore_edits_result(*point) == Ok::<Seq<Json>, Seq<char>>(json_view(edits@)),
            Err(e) => restore_edits_result(*point) == Err::<Seq<Json>, Seq<char>>(e@),
        },
{
    validate_settings(&point.settings)?;
    let mut edits: Vec<JsonValue> = Vec::new();
    let mut i: usize = 0;
    assert(json_view(edits@) =~= Seq::<Json>::empty());
    while i < point.changed_keys.len()
        invariant
            i <= point.changed_keys@.len(),
            settings_error(point.settings) is None,
            restore_edits_upto(point.settings, string_view(point.changed_keys@), i as int) == Ok::<
                Seq<Json>,
                Seq<char>,
            >(json_view(edits@)),
        decreases point.changed_keys@.len() - i,
    {
        let key = point.changed_keys[i].as_str();
        assert(string_view(point.changed_keys@)[i as int] == key@);
        match setting_value(&point.settings, key) {
            Ok(v) => {
                let ghost before = json_view(edits@);
                edits.push(crate::provider::edit(key, v, "replace"));
                assert(json_view(edits@) == before.push(json_view(edits@).last()));
            },
            Err(e) => {
                proof {
                    lemma_restore_error_sticks(
                        point.settings,
                        string_view(point.changed_keys@),
                        i + 1,
                        point.changed_keys@.len() as int,
                    );
                }
                return Err(e);
            },
        }
        i = i + 1;
    }
    Ok(edits)
}

/// A settings value compared with itself gives no edit: applying unchanged
/// settings writes nothing.
pub proof fn law_unchanged_settings_write_nothing(before: CodexSettings, after: CodexSettings)
    requires
        same_settings(before, after),
        settings_error(after) is None,
    ensures
        edits_result(before, after) == Ok::<(Seq<Json>, Seq<Seq<char>>), Seq<char>>(
            (Seq::empty(), Seq::empty()),
        ),
{
    lemma_no_edits_between_same(before, after, 25);
}

proof fn lemma_no_edits_between_same(before: CodexSettings, after: CodexSettings, n: int)
    requires
        same_settings(before, after),
        0 <= n <= 25,
    ensures
        settings_edits(before, after, n) == Ok::<(Seq<Json>, Seq<Seq<char>>), Seq<char>>(
            (Seq::empty(), Seq::empty()),
        ),
    decreases n,
{
    if n > 0 {
        lemma_no_edits_between_same(before, after, n - 1);
        lemma_same_settings(before, after, setting_keys()[n - 1]);
    }
}

/// The key an edit writes.
pub open spec fn edit_key(e: Json) -> Seq<char> {
    match e.str_at("keyPath"@) {
        Some(k) => k,
        None => Seq::empty(),
    }
}

/// The value an edit writes.
pub open spec fn edit_value(e: Json) -> Json {
    match e.get("value"@) {
        Some(v) => v,
        None => Json::Null,
    }
}

/// A configuration, as values by key, after the edits are applied in order.
pub open spec fn apply_edits(config: Map<Seq<char>, Json>, edits: Seq<Json>) -> Map<Seq<char>, Json>
    decreases edits.len(),
{
    if edits.len() == 0 {
        config
    } else {
        apply_edits(config, edits.drop_last()).insert(edit_key(edits.last()), edit_value(edits.last()))
    }
}

proof fn lemma_replace_edit_parts(key: Seq<char>, value: Json)
    ensures
        edit_key(replace_edit(key, value)) == key,
        edit_value(replace_edit(key, value)) == value,
{
    reveal_strlit("keyPath");
    reveal_strlit("value");
    assert("keyPath"@ != "value"@) by {
        assert("keyPath"@.len() != "value"@.len());
    }
    let members = seq![("keyPath"@, Json::Str(key)), ("value"@, value), ("mergeStrategy"@, Json::Str("replace"@))];
    assert(members.drop_first()[0].0 == "value"@);
    reveal_with_fuel(crate::json::key_position, 3);
    assert(crate::json::key_position(members, "value"@) == 1);
}

/// The edits for the first `n` keys write, in order, the changed keys with the
/// values `after` has.
proof fn lemma_edits_shape(before: CodexSettings, after: CodexSettings, n: int)
    requires
        0 <= n <= 25,
        settings_edits(before, after, n) is Ok,
    ensures
        ({
            let (edits, keys) = settings_edits(before, after, n)->Ok_0;
            &&& edits.len() == keys.len()
            &&& forall|i: int|
                0 <= i < edits.len() ==> setting_json(after, #[trigger] keys[i]) is Ok && setting_json(
                    before,
                    keys[i],
                ) is Ok && edits[i] == replace_edit(keys[i], setting_json(after, keys[i])->Ok_0)
        }),
    decreases n,
{
    if n > 0 {
        lemma_edits_shape(before, after, n - 1);
    }
}

/// Applying edits that write, for each key, a value that depends only on the
/// key: every written key ends with that value, every other key is unchanged.
proof fn lemma_apply_pairs(
    config: Map<Seq<char>, Json>,
    edits: Seq<Json>,
    keys: Seq<Seq<char>>,
    f: spec_fn(Seq<char>) -> Json,
)
    requires
        edits.len() == keys.len(),
        forall|i: int| 0 <= i < edits.len() ==> #[trigger] edits[i] == replace_edit(keys[i], f(keys[i])),
    ensures
        forall|k: Seq<char>|
            #[trigger] apply_edits(config, edits).contains_key(k) <==> (config.contains_key(k)
                || keys.contains(k)),
        forall|k: Seq<char>|
            !keys.contains(k) && config.contains_key(k) ==> #[trigger] apply_edits(config, edits)[k]
                == config[k],
        forall|k: Seq<char>| keys.contains(k) ==> #[trigger] apply_edits(config, edits)[k] == f(k),
    decreases edits.len(),
{
    if edits.len() > 0 {
        let n = edits.len() - 1;
        let rest = keys.drop_last();
        assert forall|i: int| 0 <= i < edits.drop_last().len() implies #[trigger] edits.drop_last()[i]
            == replace_edit(rest[i], f(rest[i])) by {
            assert(edits.drop_last()[i] == edits[i]);
        }
        lemma_apply_pairs(config, edits.drop_last(), rest, f);
        assert(edits.last() == replace_edit(keys[n], f(keys[n])));
        lemma_replace_edit_parts(keys[n], f(keys[n]));
        assert forall|k: Seq<char>| keys.contains(k) && k != keys[n] implies rest.contains(k) by {
            let j = choose|j: int| 0 <= j < keys.len() && keys[j] == k;
            assert(rest[j] == k);
        }
        assert forall|k: Seq<char>| rest.contains(k) implies keys.contains(k) by {
            let j = choose|j: int| 0 <= j < rest.len() && rest[j] == k;
            assert(keys[j] == k);
        }
        assert(keys.contains(keys[n])) by {
            assert(keys[n] == keys[n]);
        }
        let prev = apply_edits(config, edits.drop_last());
        assert(apply_edits(config, edits) == prev.insert(keys[n], f(keys[n])));
        assert forall|k: Seq<char>|
            #[trigger] apply_edits(config, edits).contains_key(k) <==> (config.contains_key(k)
                || keys.contains(k)) by {
            if k != keys[n] {
                assert(apply_edits(config, edits).contains_key(k) == prev.contains_key(k));
            }
        }
        assert forall|k: Seq<char>|
            !keys.contains(k) && config.contains_key(k) implies #[trigger] apply_edits(config, edits)[k]
                == config[k] by {
            assert(k != keys[n]);
            assert(!rest.contains(k));
        }
    }
}

/// Undoing a settings change writes back, for every key the change touched, the
/// value it had before; applying the change and then its undo leaves every other
/// key as it was.
pub proof fn law_restore_undoes_change(before: CodexSettings, after: CodexSettings, config: Map<Seq<char>, Json>)
    requires
        settings_error(before) is None,
        edits_result(before, after) is Ok,
    ensures
        ({
            let (edits, keys) = edits_result(before, after)->Ok_0;
            &&& restore_edits_upto(before, keys, keys.len() as int) is Ok
            &&& forall|k: Seq<char>|
                keys.contains(k) ==> #[trigger] apply_edits(
                    apply_edits(config, edits),
                    restore_edits_upto(before, keys, keys.len() as int)->Ok_0,
                )[k] == setting_json(before, k)->Ok_0
            &&& forall|k: Seq<char>|
                !keys.contains(k) && config.contains_key(k) ==> #[trigger] apply_edits(
                    apply_edits(config, edits),
                    restore_edits_upto(before, keys, keys.len() as int)->Ok_0,
                )[k] == config[k]
        }),
{
    let (edits, keys) = edits_result(before, after)->Ok_0;
    lemma_edits_shape(before, after, 25);
    lemma_restore_shape(before, keys, keys.len() as int);
    let restore = restore_edits_upto(before, keys, keys.len() as int)->Ok_0;
    let fa = |k: Seq<char>| setting_json(after, k)->Ok_0;
    let fb = |k: Seq<char>| setting_json(before, k)->Ok_0;
    assert forall|i: int| 0 <= i < edits.len() implies #[trigger] edits[i] == replace_edit(keys[i], fa(keys[i])) by {}
    lemma_apply_pairs(config, edits, keys, fa);
    let middle = apply_edits(config, edits);
    assert forall|i: int| 0 <= i < restore.len() implies #[trigger] restore[i] == replace_edit(keys[i], fb(keys[i])) by {}
    lemma_apply_pairs(middle, restore, keys, fb);
}

proof fn lemma_restore_same(a: CodexSettings, b: CodexSettings, keys: Seq<Seq<char>>, n: int)
    requires
        same_settings(a, b),
    ensures
        restore_edits_upto(a, keys, n) == restore_edits_upto(b, keys, n),
    decreases n,
{
    if n > 0 {
        lemma_restore_same(a, b, keys, n - 1);
        lemma_same_settings(a, b, keys[n - 1]);
    }
}

/// The restore point kept before a settings change undoes it: `restore_edits`
/// of a point that holds the settings before the change and the keys the
/// change touched succeeds, gives one `replace` edit per touched key with the
/// value it had before, and applying the change and then those edits gives
/// every touched key its value before and leaves every other key as it was.
pub proof fn law_restore_point_undoes_change(
    before: CodexSettings,
    after: CodexSettings,
    point: SettingsRestorePoint,
    config: Map<Seq<char>, Json>,
)
    requires
        settings_error(before) is None,
        edits_result(before, after) is Ok,
        same_settings(point.settings, before),
        string_view(point.changed_keys@) == edits_result(before, after)->Ok_0.1,
    ensures
        ({
            let (edits, keys) = edits_result(before, after)->Ok_0;
            let restore = restore_edits_result(point)->Ok_0;
            &&& restore_edits_result(point) is Ok
            &&& restore.len() == keys.len()
            &&& forall|i: int|
                0 <= i < keys.len() ==> #[trigger] restore[i] == replace_edit(keys[i], setting_json(before, keys[i])->Ok_0)
            &&& forall|k: Seq<char>| keys.contains(k) ==> #[trigger] apply_edits(apply_edits(config, edits), restore)[k]
                == setting_json(before, k)->Ok_0
            &&& forall|k: Seq<char>|
                !keys.contains(k) && config.contains_key(k) ==> #[trigger] apply_edits(apply_edits(config, edits), restore)[k]
                    == config[k]
        }),
{
    let (edits, keys) = edits_result(before, after)->Ok_0;
    lemma_same_settings(point.settings, before, Seq::empty());
    assert(point.changed_keys@.len() == keys.len());
    lemma_restore_same(point.settings, before, keys, keys.len() as int);
    assert(restore_edits_result(point) == restore_edits_upto(before, keys, keys.len() as int));
    lemma_edits_shape(before, after, 25);
    lemma_restore_shape(before, keys, keys.len() as int);
    law_restore_undoes_change(before, after, config);
}

proof fn lemma_restore_shape(settings: CodexSettings, keys: Seq<Seq<char>>, n: int)
    requires
        0 <= n <= keys.len(),
        forall|i: int| 0 <= i < n ==> setting_json(settings, #[trigger] keys[i]) is Ok,
    ensures
        restore_edits_upto(settings, keys, n) is Ok,
        restore_edits_upto(settings, keys, n)->Ok_0.len() == n,
        forall|i: int|
            0 <= i < n ==> #[trigger] restore_edits_upto(settings, keys, n)->Ok_0[i] == replace_edit(
                keys[i],
                setting_json(settings, keys[i])->Ok_0,
            ),
    decreases n,
{
    if n > 0 {
        lemma_restore_shape(settings, keys, n - 1);
    }
}

/// A trimmed, non-empty string at `path`.
pub open spec fn string_at(config: Json, path: Seq<Seq<char>>) -> Option<Seq<char>> {
    match config.at(path) {
        Some(v) => match v.str_of() {
            Some(s) => if trim_spec(s).len() > 0 {
                Some(trim_spec(s))
            } else {
                None
            },
            None => None,
        },
        None => None,
    }
}

pub open spec fn bool_at(config: Json, path: Seq<Seq<char>>, fallback: bool) -> bool {
    match config.at(path) {
        Some(v) => match v.bool_of() {
            Some(b) => b,
            None => fallback,
        },
        None => fallback,
    }
}

pub open spec fn u64_at(config: Json, path: Seq<Seq<char>>) -> Option<u64> {
    match config.at(path) {
        Some(v) => v.u64_of(),
        None => None,
    }
}

pub open spec fn paths_view(p: Seq<&str>) -> Seq<Seq<char>> {
    p.map_values(|x: &str| x@)
}

fn read_string(config: &JsonValue, path: &[&str]) -> (r: Option<String>)
    ensures
        opt_view(r) == string_at(config@, paths_view(path@)),
{
    match config.pointer(path) {
        Some(v) => match v.as_str() {
            Some(s) => {
                let t = str_trim(s);
                if !t.is_empty() {
                    Some(t.to_owned())
                } else {
                    None
                }
            },
            None => None,
        },
        None => None,
    }
}

fn read_bool(config: &JsonValue, path: &[&str], fallback: bool) -> (r: bool)
    ensures
        r == bool_at(config@, paths_view(path@), fallback),
{
    match config.pointer(path) {
        Some(v) => match v.as_bool() {
            Some(b) => b,
            None => fallback,
        },
        None => fallback,
    }
}

fn read_u64(config: &JsonValue, path: &[&str]) -> (r: Option<u64>)
    ensures
        r == u64_at(config@, paths_view(path@)),
{
    match config.pointer(path) {
        Some(v) => v.as_u64(),
        None => None,
    }
}

fn string_or(v: Option<String>, fallback: &str) -> (r: String)
    ensures
        r@ == match opt_view(v) {
            Some(s) => s,
            None => fallback@,
        },
{
    match v {
        Some(s) => s,
        None => fallback.to_owned(),
    }
}

pub open spec fn or_text(v: Option<Seq<char>>, fallback: Seq<char>) -> Seq<char> {
    match v {
        Some(s) => s,
        None => fallback,
    }
}

/// The settings a configuration holds; each absent setting takes Codex's default.
pub open spec fn parsed_settings(config: Json, s: CodexSettings) -> bool {
    &&& opt_view(s.model_reasoning_effort) == string_at(config, seq!["model_reasoning_effort"@])
    &&& opt_view(s.plan_mode_reasoning_effort) == string_at(config, seq!["plan_mode_reasoning_effort"@])
    &&& opt_view(s.model_reasoning_summary) == string_at(config, seq!["model_reasoning_summary"@])
    &&& opt_view(s.model_verbosity) == string_at(config, seq!["model_verbosity"@])
    &&& opt_view(s.personality) == string_at(config, seq!["personality"@])
    &&& s.approval_policy@ == if config.get("approval_policy"@) matches Some(Json::Object(_)) {
        "granular"@
    } else {
        or_text(string_at(config, seq!["approval_policy"@]), "untrusted"@)
    }
    &&& s.approvals_reviewer@ == or_text(string_at(config, seq!["approvals_reviewer"@]), "user"@)
    &&& s.sandbox_mode@ == or_text(string_at(config, seq!["sandbox_mode"@]), "read-only"@)
    &&& s.workspace_network_access == bool_at(config, seq!["sandbox_workspace_write"@, "network_access"@], false)
    &&& s.web_search@ == or_text(string_at(config, seq!["web_search"@]), "cached"@)
    &&& s.history_persistence@ == or_text(string_at(config, seq!["history"@, "persistence"@]), "save-all"@)
    &&& s.auto_compact_token_limit == u64_at(config, seq!["model_auto_compact_token_limit"@])
    &&& s.auto_compact_scope@ == or_text(string_at(config, seq!["model_auto_compact_token_limit_scope"@]), "total"@)
    &&& s.memories_enabled == bool_at(config, seq!["features"@, "memories"@], false)
    &&& s.memories_use == bool_at(config, seq!["memories"@, "use_memories"@], true)
    &&& s.memories_generate == bool_at(config, seq!["memories"@, "generate_memories"@], true)
    &&& s.memories_disable_on_external_context == bool_at(config, seq!["memories"@, "disable_on_external_context"@], false)
    &&& s.multi_agent_enabled == bool_at(config, seq!["features"@, "multi_agent"@], true)
    &&& s.goals_enabled == bool_at(config, seq!["features"@, "goals"@], true)
    &&& s.hooks_enabled == bool_at(config, seq!["features"@, "hooks"@], true)
    &&& s.unified_exec_enabled == bool_at(config, seq!["features"@, "unified_exec"@], true)
    &&& s.fast_mode_enabled == bool_at(config, seq!["features"@, "fast_mode"@], true)
    &&& s.apps_enabled == bool_at(config, seq!["features"@, "apps"@], true)
    &&& s.hide_agent_reasoning == bool_at(config, seq!["hide_agent_reasoning"@], false)
    &&& s.show_raw_agent_reasoning == bool_at(config, seq!["show_raw_agent_reasoning"@], false)
}

/// Reads the settings from Codex's effective configuration.
pub fn parse_settings(config: &JsonValue) -> (r: CodexSettings)
    ensures
        parsed_settings(config@, r),
{
    let p1: [&str; 1] = ["model_reasoning_effort"];
    let p2: [&str; 1] = ["plan_mode_reasoning_effort"];
    let p3: [&str; 1] = ["model_reasoning_summary"];
    let p4: [&str; 1] = ["model_verbosity"];
    let p5: [&str; 1] = ["personality"];
    let p6: [&str; 1] = ["approval_policy"];
    let p7: [&str; 1] = ["approvals_reviewer"];
    let p8: [&str; 1] = ["sandbox_mode"];
    let p9: [&str; 2] = ["sandbox_workspace_write", "network_access"];
    let p10: [&str; 1] = ["web_search"];
    let p11: [&str; 2] = ["history", "persistence"];
    let p12: [&str; 1] = ["model_auto_compact_token_limit"];
    let p13: [&str; 1] = ["model_auto_compact_token_limit_scope"];
    let p14: [&str; 2] = ["features", "memories"];
    let p15: [&str; 2] = ["memories", "use_memories"];
    let p16: [&str; 2] = ["memories", "generate_memories"];
    let p17: [&str; 2] = ["memories", "disable_on_external_context"];
    let p18: [&str; 2] = ["features", "multi_agent"];
    let p19: [&str; 2] = ["features", "goals"];
    let p20: [&str; 2] = ["features", "hooks"];
    let p21: [&str; 2] = ["features", "unified_exec"];
    let p22: [&str; 2] = ["features", "fast_mode"];
    let p23: [&str; 2] = ["features", "apps"];
    let p24: [&str; 1] = ["hide_agent_reasoning"];
    let p25: [&str; 1] = ["show_raw_agent_reasoning"];
    proof {
        assert(paths_view(p1@) == seq!["model_reasoning_effort"@]);
        assert(paths_view(p2@) == seq!["plan_mode_reasoning_effort"@]);
        assert(paths_view(p3@) == seq!["model_reasoning_summary"@]);
        assert(paths_view(p4@) == seq!["model_verbosity"@]);
        assert(paths_view(p5@) == seq!["personality"@]);
        assert(paths_view(p6@) == seq!["approval_policy"@]);
        assert(paths_view(p7@) == seq!["approvals_reviewer"@]);
        assert(paths_view(p8@) == seq!["sandbox_mode"@]);
        assert(paths_view(p9@) == seq!["sandbox_workspace_write"@, "network_access"@]);
        assert(paths_view(p10@) == seq!["web_search"@]);
        assert(paths_view(p11@) == seq!["history"@, "persistence"@]);
        assert(paths_view(p12@) == seq!["model_auto_compact_token_limit"@]);
        assert(paths_view(p13@) == seq!["model_auto_compact_token_limit_scope"@]);
        assert(paths_view(p14@) == seq!["features"@, "memories"@]);
        assert(paths_view(p15@) == seq!["memories"@, "use_memories"@]);
        assert(paths_view(p16@) == seq!["memories"@, "generate_memories"@]);
        assert(paths_view(p17@) == seq!["memories"@, "disable_on_external_context"@]);
        assert(paths_view(p18@) == seq!["features"@, "multi_agent"@]);
        assert(paths_view(p19@) == seq!["features"@, "goals"@]);
        assert(paths_view(p20@) == seq!["features"@, "hooks"@]);
        assert(paths_view(p21@) == seq!["features"@, "unified_exec"@]);
        assert(paths_view(p22@) == seq!["features"@, "fast_mode"@]);
        assert(paths_view(p23@) == seq!["features"@, "apps"@]);
        assert(paths_view(p24@) == seq!["hide_agent_reasoning"@]);
        assert(paths_view(p25@) == seq!["show_raw_agent_reasoning"@]);
    }
    let granular = match config.get("approval_policy") {
        Some(JsonValue::Object(_)) => true,
        _ => false,
    };
    let approval_policy = if granular {
        "granular".to_owned()
    } else {
        string_or(read_string(config, p6.as_slice()), "untrusted")
    };
    CodexSettings {
        model_reasoning_effort: read_string(config, p1.as_slice()),
        plan_mode_reasoning_effort: read_string(config, p2.as_slice()),
        model_reasoning_summary: read_string(config, p3.as_slice()),
        model_verbosity: read_string(config, p4.as_slice()),
        personality: read_string(config, p5.as_slice()),
        approval_policy,
        approvals_reviewer: string_or(read_string(config, p7.as_slice()), "user"),
        sandbox_mode: string_or(read_string(config, p8.as_slice()), "read-only"),
        workspace_network_access: read_bool(config, p9.as_slice(), false),
        web_search: string_or(read_string(config, p10.as_slice()), "cached"),
        history_persistence: string_or(read_string(config, p11.as_slice()), "save-all"),
        auto_compact_token_limit: read_u64(config, p12.as_slice()),
        auto_compact_scope: string_or(read_string(config, p13.as_slice()), "total"),
        memories_enabled: read_bool(config, p14.as_slice(), false),
        memories_use: read_bool(config, p15.as_slice(), true),
        memories_generate: read_bool(config, p16.as_slice(), true),
        memories_disable_on_external_context: read_bool(config, p17.as_slice(), false),
        multi_agent_enabled: read_bool(config, p18.as_slice(), true),
        goals_enabled: read_bool(config, p19.as_slice(), true),
        hooks_enabled: read_bool(config, p20.as_slice(), true),
        unified_exec_enabled: read_bool(config, p21.as_slice(), true),
        fast_mode_enabled: read_bool(config, p22.as_slice(), true),
        apps_enabled: read_bool(config, p23.as_slice(), true),
        hide_agent_reasoning: read_bool(config, p24.as_slice(), false),
        show_raw_agent_reasoning: read_bool(config, p25.as_slice(), false),
    }
}

/// The user's own configuration layer: type `user`, no profile.
pub open spec fn is_user_layer(layer: Json) -> bool {
    &&& layer.at(seq!["name"@, "type"@]) matches Some(t) && t.str_of() == Some("user"@)
    &&& match layer.at(seq!["name"@, "profile"@]) {
        Some(p) => p is Null,
        None => true,
    }
}

/// Index of the first user layer among the first `n` layers.
pub open spec fn first_user_layer(layers: Seq<Json>, n: int) -> Option<int>
    decreases n,
{
    if n <= 0 {
        None
    } else {
        match first_user_layer(layers, n - 1) {
            Some(i) => Some(i),
            None => if is_user_layer(layers[n - 1]) {
                Some(n - 1)
            } else {
                None
            },
        }
    }
}

pub open spec fn user_layer_model(raw: Json) -> Option<Json> {
    match raw.get("layers"@) {
        Some(Json::Array(layers)) => match first_user_layer(layers, layers.len() as int) {
            Some(i) => Some(layers[i]),
            None => None,
        },
        _ => None,
    }
}

/// The user's configuration layer in a `config/read` reply.
pub fn user_layer(raw: &JsonValue) -> (r: Option<&JsonValue>)
    ensures
        crate::json::opt_view(r) == user_layer_model(raw@),
{
    let layers = match raw.get("layers") {
        Some(JsonValue::Array(layers)) => layers,
        _ => {
            return None;
        },
    };
    let ghost model = raw@.get("layers"@).unwrap()->Array_0;
    assert(forall|k: int| 0 <= k < layers@.len() ==> #[trigger] model[k] == layers@[k]@);
    let type_path: [&str; 2] = ["name", "type"];
    let profile_path: [&str; 2] = ["name", "profile"];
    proof {
        assert(paths_view(type_path@) == seq!["name"@, "type"@]);
        assert(paths_view(profile_path@) == seq!["name"@, "profile"@]);
    }
    let mut i: usize = 0;
    while i < layers.len()
        invariant
            i <= layers@.len(),
            model.len() == layers@.len(),
            raw@.get("layers"@) == Some(Json::Array(model)),
            forall|k: int| 0 <= k < layers@.len() ==> #[trigger] model[k] == layers@[k]@,
            first_user_layer(model, i as int) is None,
            paths_view(type_path@) == seq!["name"@, "type"@],
            paths_view(profile_path@) == seq!["name"@, "profile"@],
        decreases layers@.len() - i,
    {
        let layer = &layers[i];
        let is_user = match layer.pointer(type_path.as_slice()) {
            Some(t) => match t.as_str() {
                Some(kind) => str_eq(kind, "user"),
                None => false,
            },
            None => false,
        };
        let no_profile = match layer.pointer(profile_path.as_slice()) {
            Some(p) => p.is_null(),
            None => true,
        };
        assert(model[i as int] == layer@);
        if is_user && no_profile {
            assert(first_user_layer(model, i + 1) == Some(i as int));
            proof {
                lemma_first_user_layer_stable(model, i + 1, model.len() as int);
            }
            return Some(layer);
        }
        i = i + 1;
    }
    None
}

proof fn lemma_first_user_layer_stable(layers: Seq<Json>, i: int, n: int)
    requires
        0 <= i <= n,
        first_user_layer(layers, i) is Some,
    ensures
        first_user_layer(layers, n) == first_user_layer(layers, i),
    decreases n - i,
{
    if n > i {
        lemma_first_user_layer_stable(layers, i, n - 1);
    }
}

pub open spec fn settings_warnings(s: CodexSettings) -> Seq<Seq<char>> {
    (if s.approval_policy@ == "granular"@ {
        seq!["当前使用精细审批策略；普通模式只展示状态，切换到预设后会替换这组规则。"@]
    } else {
        Seq::empty()
    }) + (if s.history_persistence@ == "none"@ {
        seq!["会话历史保存已关闭，Codex 庖丁将无法持续生成完整用量和执行分析。"@]
    } else {
        Seq::empty()
    })
}

/// The settings snapshot of a `config/read` reply. `fetched_at` is the time of
/// reading, `default_config_path` the path used when the reply names no user
/// layer file, and `restore_available` whether a restore point is saved.
pub fn build_settings_snapshot(
    raw: &JsonValue,
    fetched_at: String,
    default_config_path: String,
    restore_available: bool,
) -> (r: Result<SettingsSnapshot, String>)
    ensures
        raw@.get("config"@) is None <==> r is Err,
        r matches Err(e) ==> e@ == "config/read 缺少 config 字段"@,
        r matches Ok(snapshot) ==> {
            let layer = user_layer_model(raw@);
            &&& parsed_settings(raw@.get("config"@)->Some_0, snapshot.settings)
            &&& snapshot.fetched_at@ == fetched_at@
            &&& snapshot.restore_available == restore_available
            &&& snapshot.config_path@ == match layer {
                Some(l) => match l.at(seq!["name"@, "file"@]) {
                    Some(f) => match f.str_of() {
                        Some(path) => path,
                        None => default_config_path@,
                    },
                    None => default_config_path@,
                },
                None => default_config_path@,
            }
            &&& opt_view(snapshot.version) == match layer {
                Some(l) => l.str_at("version"@),
                None => None,
            }
            &&& string_view(snapshot.warnings@) == settings_warnings(snapshot.settings)
        },
{
    let config = match raw.get("config") {
        Some(c) => c,
        None => {
            return Err("config/read 缺少 config 字段".to_owned());
        },
    };
    let layer = user_layer(raw);
    let file_path: [&str; 2] = ["name", "file"];
    proof {
        assert(paths_view(file_path@) == seq!["name"@, "file"@]);
    }
    let config_path = match layer {
        Some(l) => match l.pointer(file_path.as_slice()) {
            Some(f) => match f.as_str() {
                Some(path) => path.to_owned(),
                None => default_config_path,
            },
            None => default_config_path,
        },
        None => default_config_path,
    };
    let version = match layer {
        Some(l) => match l.str_at("version") {
            Some(v) => Some(v.to_owned()),
            None => None,
        },
        None => None,
    };
    let settings = parse_settings(config);
    let mut warnings: Vec<String> = Vec::new();
    if str_eq(settings.approval_policy.as_str(), "granular") {
        warnings.push("当前使用精细审批策略；普通模式只展示状态，切换到预设后会替换这组规则。".to_owned());
    }
    let ghost first = string_view(warnings@);
    if str_eq(settings.history_persistence.as_str(), "none") {
        warnings.push("会话历史保存已关闭，Codex 庖丁将无法持续生成完整用量和执行分析。".to_owned());
    }
    proof {
        assert(first == (if settings.approval_policy@ == "granular"@ {
            seq!["当前使用精细审批策略；普通模式只展示状态，切换到预设后会替换这组规则。"@]
        } else {
            Seq::empty()
        }));
        assert(string_view(warnings@) == settings_warnings(settings));
    }
    Ok(
        SettingsSnapshot {
            fetched_at,
            config_path,
            version,
            settings,
            restore_available,
            warnings,
        },
    )
}

} // verus!
