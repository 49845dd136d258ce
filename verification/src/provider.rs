//! Model providers: what a request to switch provider may contain, the Codex
//! configuration edits it becomes, and the restore point kept before it.
use vstd::prelude::*;
use crate::json::{Json, JsonValue};
use crate::text::{
    ascii_lower, chars_of, str_eq, str_trim, string_of_range,
    trim_spec,
};
use crate::chat_bridge::{trim_end_char, trim_end_slashes};
use crate::web::{parse_url, parsed_url};
use vstd::string::StringSliceAdditionalSpecFns;
use vstd::utf8::encode_utf8;

verus! {

broadcast use vstd::string::group_string_axioms;

/// The keychain service under which API keys are stored.
pub const CREDENTIAL_SERVICE: &'static str = "app.codex-xray.provider";

/// The argument that makes the app act as Codex's credential helper.
pub const CREDENTIAL_HELPER_ARG: &'static str = "--codex-xray-credential";

/// A provider as the UI lists it.
#[derive(Debug)]
pub struct ProviderDefinition {
    pub id: String,
    pub name: String,
    pub base_url: Option<String>,
    pub env_key: Option<String>,
    pub env_available: bool,
    pub credential_source: String,
    pub credential_available: bool,
    pub auth_command: Option<String>,
    pub auth_args: Vec<String>,
    pub wire_api: String,
    pub protocol: String,
    pub context_window: Option<u64>,
    pub builtin: bool,
    pub compatibility: String,
}

/// A model Codex offers.
#[derive(Debug)]
pub struct ModelOption {
    pub id: String,
    pub display_name: String,
    pub default_reasoning_effort: Option<String>,
    pub supported_reasoning_efforts: Vec<String>,
    pub supports_personality: bool,
    pub is_default: bool,
}

/// The provider settings shown in the UI.
#[derive(Debug)]
pub struct ProviderSnapshot {
    pub fetched_at: String,
    pub config_path: String,
    pub version: Option<String>,
    pub active_provider: String,
    pub active_model: Option<String>,
    pub models: Vec<ModelOption>,
    pub providers: Vec<ProviderDefinition>,
    pub restore_available: bool,
    pub warnings: Vec<String>,
}

/// A request to switch Codex to a provider and model.
#[derive(Debug)]
pub struct ProviderApplyRequest {
    pub provider_id: String,
    pub model: String,
    pub name: Option<String>,
    pub base_url: Option<String>,
    pub env_key: Option<String>,
    pub credential_mode: Option<String>,
    pub api_key: Option<String>,
    pub protocol: String,
    pub context_window: u64,
    pub expected_version: Option<String>,
}

/// The outcome of a live connection test.
#[derive(Debug)]
pub struct ProviderTestResult {
    pub success: bool,
    pub check_kind: String,
    pub provider_id: String,
    pub model: String,
    pub endpoint: Option<String>,
    pub latency_ms: u128,
    pub http_status: Option<u16>,
    pub message: String,
}

/// What was active before a provider switch, to switch back.
#[derive(Debug)]
pub struct ProviderRestorePoint {
    pub provider_id: String,
    pub model: Option<String>,
    pub definition: Option<ProviderDefinition>,
}

pub open spec fn result_view(r: Result<String, String>) -> Result<Seq<char>, Seq<char>> {
    match r {
        Ok(s) => Ok(s@),
        Err(e) => Err(e@),
    }
}

pub open spec fn identifier_ok(id: Seq<char>) -> bool {
    0 < id.len() <= 64 && forall|i: int|
        0 <= i < id.len() ==> crate::remote::id_char_ok(#[trigger] id[i])
}

pub open spec fn identifier_result(value: Seq<char>, label: Seq<char>) -> Result<Seq<char>, Seq<char>> {
    if identifier_ok(trim_spec(value)) {
        Ok(trim_spec(value))
    } else {
        Err(label + " 只能包含字母、数字、连字符和下划线，且长度不超过 64。"@)
    }
}

/// A provider ID or variable name: trimmed, 1 to 64 ASCII letters, digits, `-`, `_`.
pub fn validate_identifier(value: &str, label: &str) -> (r: Result<String, String>)
    ensures
        result_view(r) == identifier_result(value@, label@),
{
    broadcast use vstd::utf8::is_ascii_chars_encode_utf8;

    let id = str_trim(value);
    let chars = chars_of(id);
    let mut i: usize = 0;
    let mut all_ok = true;
    while i < chars.len()
        invariant
            i <= chars@.len(),
            chars@ == id@,
            all_ok == forall|k: int| 0 <= k < i ==> crate::remote::id_char_ok(#[trigger] chars@[k]),
        decreases chars@.len() - i,
    {
        let c = chars[i];
        let ok = ('0' <= c && c <= '9') || ('a' <= c && c <= 'z') || ('A' <= c && c <= 'Z')
            || c == '-' || c == '_';
        all_ok = all_ok && ok;
        i = i + 1;
    }
    proof {
        if all_ok {
            assert(vstd::utf8::is_ascii_chars(id@));
            assert(id.spec_bytes().len() == id@.len());
        }
    }
    if chars.len() == 0 || id.len() > 64 || !all_ok {
        let mut message = label.to_owned();
        message.append(" 只能包含字母、数字、连字符和下划线，且长度不超过 64。");
        return Err(message);
    }
    Ok(id.to_owned())
}

pub open spec fn has_control_break(s: Seq<char>) -> bool {
    s.contains('\r') || s.contains('\n') || s.contains('\0')
}

fn contains_control_break(s: &str) -> (r: bool)
    ensures
        r == has_control_break(s@),
{
    let chars = chars_of(s);
    let mut i: usize = 0;
    while i < chars.len()
        invariant
            i <= chars@.len(),
            chars@ == s@,
            forall|k: int| 0 <= k < i ==> chars@[k] != '\r' && chars@[k] != '\n' && chars@[k] != '\0',
        decreases chars@.len() - i,
    {
        let c = chars[i];
        if c == '\r' || c == '\n' || c == '\0' {
            assert(s@[i as int] == c);
            return true;
        }
        i = i + 1;
    }
    false
}

pub open spec fn model_result(value: Seq<char>) -> Result<Seq<char>, Seq<char>> {
    let m = trim_spec(value);
    if m.len() == 0 || encode_utf8(m).len() > 128 || has_control_break(m) {
        Err("模型名称不能为空，且不能包含换行或控制字符。"@)
    } else {
        Ok(m)
    }
}

/// A model name: trimmed, non-empty, at most 128 bytes, no line breaks or NUL.
pub fn validate_model(value: &str) -> (r: Result<String, String>)
    ensures
        result_view(r) == model_result(value@),
{
    let m = str_trim(value);
    if m.is_empty() || m.as_bytes().len() > 128 || contains_control_break(m) {
        return Err("模型名称不能为空，且不能包含换行或控制字符。".to_owned());
    }
    Ok(m.to_owned())
}

pub open spec fn api_key_result(value: Seq<char>) -> Result<Seq<char>, Seq<char>> {
    let k = trim_spec(value);
    if k.len() == 0 {
        Err("API Key 不能为空。"@)
    } else if encode_utf8(k).len() > 32 * 1024 || has_control_break(k) {
        Err("API Key 过长或包含无效控制字符。"@)
    } else {
        Ok(k)
    }
}

/// An API key: trimmed, non-empty, at most 32 KiB, no line breaks or NUL.
pub fn validate_api_key(value: &str) -> (r: Result<String, String>)
    ensures
        result_view(r) == api_key_result(value@),
{
    let k = str_trim(value);
    if k.is_empty() {
        return Err("API Key 不能为空。".to_owned());
    }
    if k.as_bytes().len() > 32 * 1024 || contains_control_break(k) {
        return Err("API Key 过长或包含无效控制字符。".to_owned());
    }
    Ok(k.to_owned())
}

/// A context window for a Chat Completions provider, in tokens.
pub fn validate_context_window(value: u64) -> (r: Result<u64, String>)
    ensures
        r is Ok <==> 8_192 <= value <= 4_000_000,
        r matches Ok(v) ==> v == value,
        r matches Err(e) ==> e@ == "上下文窗口必须在 8,192 到 4,000,000 Token 之间。"@,
{
    if value < 8_192 || value > 4_000_000 {
        return Err("上下文窗口必须在 8,192 到 4,000,000 Token 之间。".to_owned());
    }
    Ok(value)
}

/// Hosts that publish only Chat Completions, not the Responses API.
pub open spec fn chat_only_host(host: Seq<char>) -> bool {
    let h = ascii_lower(host);
    ||| h == "open.bigmodel.cn"@
    ||| h == "api.z.ai"@
    ||| h == "api.deepseek.com"@
    ||| h == "api.moonshot.cn"@
    ||| h == "api.minimax.chat"@
    ||| h == "api.hunyuan.cloud.tencent.com"@
    ||| h == "api.siliconflow.cn"@
}

pub open spec fn known_chat_only(value: Seq<char>) -> bool {
    match parsed_url(value) {
        Ok(url) => match url.host {
            Some(host) => chat_only_host(host),
            None => false,
        },
        Err(_) => false,
    }
}

/// Whether an address belongs to a provider known to offer only Chat Completions.
pub fn is_known_chat_only_url(value: &str) -> (r: bool)
    ensures
        r == known_chat_only(value@),
{
    match parse_url(value) {
        Ok(url) => match &url.host {
            Some(host) => {
                let h = crate::text::str_ascii_lowercase(host.as_str());
                let s = h.as_str();
                str_eq(s, "open.bigmodel.cn") || str_eq(s, "api.z.ai") || str_eq(
                    s,
                    "api.deepseek.com",
                ) || str_eq(s, "api.moonshot.cn") || str_eq(s, "api.minimax.chat") || str_eq(
                    s,
                    "api.hunyuan.cloud.tencent.com",
                ) || str_eq(s, "api.siliconflow.cn")
            },
            None => false,
        },
        Err(_) => false,
    }
}

pub open spec fn local_host(host: Option<Seq<char>>) -> bool {
    match host {
        Some(h) => h == "localhost"@ || h == "127.0.0.1"@ || h == "::1"@,
        None => false,
    }
}

pub open spec fn provider_url_result(value: Seq<char>, allow_chat_only: bool) -> Result<Seq<char>, Seq<char>> {
    let v = trim_end_char(trim_spec(value), '/');
    match parsed_url(v) {
        Err(_) => Err("Provider URL 不是有效 URL。"@),
        Ok(url) => if url.scheme != "https"@ && !(url.scheme == "http"@ && local_host(url.host)) {
            Err("远程 Provider 必须使用 HTTPS；HTTP 只允许 localhost。"@)
        } else if url.username.len() > 0 || url.password is Some {
            Err("Provider URL 不能内嵌用户名或密码。"@)
        } else if url.query is Some || url.fragment is Some {
            Err("Provider URL 不能包含查询参数或片段。"@)
        } else if !allow_chat_only && known_chat_only(v) {
            Err(
                "这个厂商直连地址目前只公布了 Chat Completions，不能直接用于只接受 Responses API 的 Codex。请选择支持 Responses 的云平台入口，或填写 Responses 适配网关。"@,
            )
        } else {
            Ok(v)
        }
    }
}

/// A provider base URL: HTTPS (HTTP only to this machine), no credentials,
/// query or fragment, and not a Chat-only vendor unless that is allowed.
pub fn validate_provider_url(value: &str, allow_chat_only: bool) -> (r: Result<String, String>)
    ensures
        result_view(r) == provider_url_result(value@, allow_chat_only),
{
    let trimmed = trim_end_slashes(str_trim(value));
    let v = trimmed.as_str();
    let url = match parse_url(v) {
        Ok(url) => url,
        Err(_) => {
            return Err("Provider URL 不是有效 URL。".to_owned());
        },
    };
    let local_http = str_eq(url.scheme.as_str(), "http") && match &url.host {
        Some(h) => str_eq(h.as_str(), "localhost") || str_eq(h.as_str(), "127.0.0.1") || str_eq(
            h.as_str(),
            "::1",
        ),
        None => false,
    };
    if !str_eq(url.scheme.as_str(), "https") && !local_http {
        return Err("远程 Provider 必须使用 HTTPS；HTTP 只允许 localhost。".to_owned());
    }
    if !url.username.as_str().is_empty() || url.password.is_some() {
        return Err("Provider URL 不能内嵌用户名或密码。".to_owned());
    }
    if url.query.is_some() || url.fragment.is_some() {
        return Err("Provider URL 不能包含查询参数或片段。".to_owned());
    }
    if !allow_chat_only && is_known_chat_only_url(v) {
        return Err(
            "这个厂商直连地址目前只公布了 Chat Completions，不能直接用于只接受 Responses API 的 Codex。请选择支持 Responses 的云平台入口，或填写 Responses 适配网关。".to_owned(),
        );
    }
    Ok(trimmed)
}

/// A base URL for a provider that Codex talks to over the Responses API.
pub fn validate_base_url(value: &str) -> (r: Result<String, String>)
    ensures
        result_view(r) == provider_url_result(value@, false),
{
    validate_provider_url(value, false)
}

pub open spec fn opt_view(v: Option<String>) -> Option<Seq<char>> {
    match v {
        Some(s) => Some(s@),
        None => None,
    }
}

pub open spec fn credential_mode_result(request: ProviderApplyRequest) -> Result<Seq<char>, Seq<char>> {
    let mode = match request.credential_mode {
        Some(m) => m@,
        None => if request.env_key is Some {
            "environment"@
        } else {
            "none"@
        },
    };
    if mode == "keychain"@ || mode == "environment"@ || mode == "none"@ {
        Ok(mode)
    } else {
        Err("凭据方式不是 Codex X-Ray 支持的值。"@)
    }
}

/// How the provider's credential is supplied: keychain, environment or none.
pub fn credential_mode(request: &ProviderApplyRequest) -> (r: Result<String, String>)
    ensures
        result_view(r) == credential_mode_result(*request),
{
    let mode: &str = match &request.credential_mode {
        Some(m) => m.as_str(),
        None => if request.env_key.is_some() {
            "environment"
        } else {
            "none"
        },
    };
    if str_eq(mode, "keychain") || str_eq(mode, "environment") || str_eq(mode, "none") {
        Ok(mode.to_owned())
    } else {
        Err("凭据方式不是 Codex X-Ray 支持的值。".to_owned())
    }
}

pub open spec fn protocol_result(request: ProviderApplyRequest) -> Result<Seq<char>, Seq<char>> {
    let p = trim_spec(request.protocol@);
    if p == "responses"@ || p == "chat_completions"@ {
        Ok(p)
    } else {
        Err("接口协议必须是 Responses 或 Chat Completions。"@)
    }
}

/// The wire protocol requested: Responses or Chat Completions.
pub fn provider_protocol(request: &ProviderApplyRequest) -> (r: Result<String, String>)
    ensures
        result_view(r) == protocol_result(*request),
{
    let p = str_trim(request.protocol.as_str());
    if str_eq(p, "responses") || str_eq(p, "chat_completions") {
        Ok(p.to_owned())
    } else {
        Err("接口协议必须是 Responses 或 Chat Completions。".to_owned())
    }
}

/// The providers built into Codex.
pub open spec fn builtin_ids() -> Seq<Seq<char>> {
    seq!["openai"@, "ollama"@, "lmstudio"@, "amazon-bedrock"@]
}

pub open spec fn builtin(id: Seq<char>) -> bool {
    builtin_ids().contains(id)
}

/// Whether a provider is built into Codex.
pub fn is_builtin(id: &str) -> (r: bool)
    ensures
        r == builtin(id@),
{
    let r = str_eq(id, "openai") || str_eq(id, "ollama") || str_eq(id, "lmstudio") || str_eq(
        id,
        "amazon-bedrock",
    );
    proof {
        if builtin(id@) {
            let k = choose|k: int| 0 <= k < 4 && builtin_ids()[k] == id@;
            assert(k == 0 || k == 1 || k == 2 || k == 3);
        }
        if r {
            if id@ == "openai"@ {
                assert(builtin_ids()[0] == id@);
            } else if id@ == "ollama"@ {
                assert(builtin_ids()[1] == id@);
            } else if id@ == "lmstudio"@ {
                assert(builtin_ids()[2] == id@);
            } else {
                assert(builtin_ids()[3] == id@);
            }
        }
    }
    r
}

/// Whether `args` make Codex call this app as the credential helper for `provider_id`.
pub fn is_xray_credential_helper(args: &[String], provider_id: &str) -> (r: bool)
    ensures
        r == (args@.len() == 2 && args@[0]@ == CREDENTIAL_HELPER_ARG@ && args@[1]@ == provider_id@),
{
    args.len() == 2 && str_eq(args[0].as_str(), CREDENTIAL_HELPER_ARG) && str_eq(
        args[1].as_str(),
        provider_id,
    )
}

pub open spec fn compatibility_text(base_url: Option<Seq<char>>, wire_api: Seq<char>) -> Seq<char> {
    if base_url matches Some(u) && known_chat_only(u) {
        "chat_only"@
    } else if wire_api != "responses"@ {
        "unsupported_wire_api"@
    } else {
        "responses"@
    }
}

/// Whether Codex can use a configured provider as it stands.
pub fn compatibility_for(base_url: Option<&str>, wire_api: &str) -> (r: String)
    ensures
        r@ == compatibility_text(crate::json::opt_str_view(base_url), wire_api@),
{
    let chat_only = match base_url {
        Some(u) => is_known_chat_only_url(u),
        None => false,
    };
    if chat_only {
        return "chat_only".to_owned();
    }
    if !str_eq(wire_api, "responses") {
        return "unsupported_wire_api".to_owned();
    }
    "responses".to_owned()
}

pub open spec fn truncated_message(value: Seq<char>) -> Seq<char> {
    if value.len() > 2_000 {
        value.take(2_000).push('…')
    } else {
        value
    }
}

/// At most 2,000 characters of an error, with an ellipsis when cut.
pub fn truncate_message(value: &str) -> (r: String)
    ensures
        r@ == truncated_message(value@),
{
    let chars = chars_of(value);
    if chars.len() > 2_000 {
        let mut out = string_of_range(chars.as_slice(), 0, 2_000);
        crate::text::push_char(&mut out, '…');
        assert(chars@.subrange(0, 2_000) == chars@.take(2_000));
        out
    } else {
        value.to_owned()
    }
}

/// Why the system keychain could not be used.
#[derive(Debug)]
pub enum KeychainError {
    /// The keychain entry could not be opened (the text says why).
    Access(String),
    /// The keychain holds no secret for the provider.
    NoEntry,
    /// Reading, writing or deleting failed (the text says why).
    Failure(String),
}

#[verifier::external_type_specification]
#[verifier::external_body]
pub struct ExKeyringEntry(keyring::Entry);

/// `keyring::Entry::new` for this app's keychain service. Its result depends on
/// the platform's credential store, so nothing is claimed of it.
#[verifier::external_body]
fn keychain_entry(provider_id: &str) -> (r: Result<keyring::Entry, String>) {
    keyring::Entry::new(CREDENTIAL_SERVICE, provider_id).map_err(|error| error.to_string())
}

/// `keyring::Entry::get_password`: what the keychain holds depends on the
/// machine, so only the kind of failure is told apart (`NoEntry` when the
/// keychain has none).
#[verifier::external_body]
fn keychain_get(entry: &keyring::Entry) -> (r: Result<String, KeychainError>) {
    match entry.get_password() {
        Ok(secret) => Ok(secret),
        Err(keyring::Error::NoEntry) => Err(KeychainError::NoEntry),
        Err(other) => Err(KeychainError::Failure(other.to_string())),
    }
}

/// `keyring::Entry::set_password`; success depends on the machine.
#[verifier::external_body]
fn keychain_set(entry: &keyring::Entry, secret: &str) -> (r: Result<(), String>) {
    entry.set_password(secret).map_err(|error| error.to_string())
}

/// `keyring::Entry::delete_credential`; `NoEntry` when there was nothing to delete.
#[verifier::external_body]
fn keychain_delete(entry: &keyring::Entry) -> (r: Result<(), KeychainError>) {
    match entry.delete_credential() {
        Ok(()) => Ok(()),
        Err(keyring::Error::NoEntry) => Err(KeychainError::NoEntry),
        Err(other) => Err(KeychainError::Failure(other.to_string())),
    }
}

/// What the keychain's answer to a read makes of a stored key: the key,
/// checked as `validate_api_key` checks a new one, or the reason there is none.
pub open spec fn stored_key_outcome(got: Result<String, KeychainError>) -> Result<Seq<char>, Seq<char>> {
    match got {
        Ok(secret) => api_key_result(secret@),
        Err(KeychainError::NoEntry) => Err("系统凭据存储中没有这个 Provider 的 API Key。"@),
        Err(KeychainError::Access(e)) => Err("无法读取系统凭据存储："@ + e@),
        Err(KeychainError::Failure(e)) => Err("无法读取系统凭据存储："@ + e@),
    }
}

/// The keychain could not be opened; `detail` is what the platform said.
pub open spec fn keychain_unreachable(r: Result<Seq<char>, Seq<char>>) -> bool {
    r matches Err(e) && exists|detail: Seq<char>| e == "无法访问系统凭据存储："@ + detail
}

/// What a read of the keychain can come to, whatever the machine holds.
pub open spec fn keychain_read_possible(r: Result<Seq<char>, Seq<char>>) -> bool {
    keychain_unreachable(r) || exists|got: Result<String, KeychainError>| r == stored_key_outcome(got)
}

/// The stored key, from what the keychain answered to a read.
pub fn stored_key(got: Result<String, KeychainError>) -> (r: Result<String, String>)
    ensures
        result_view(r) == stored_key_outcome(got),
        r matches Ok(key) ==> api_key_result(key@) == Ok::<Seq<char>, Seq<char>>(key@),
{
    match got {
        Ok(secret) => {
            let checked = validate_api_key(secret.as_str());
            proof {
                if checked is Ok {
                    lemma_trim_idempotent(secret@);
                }
            }
            checked
        },
        Err(KeychainError::NoEntry) => Err("系统凭据存储中没有这个 Provider 的 API Key。".to_owned()),
        Err(KeychainError::Access(error)) => {
            let mut message = "无法读取系统凭据存储：".to_owned();
            message.append(error.as_str());
            Err(message)
        },
        Err(KeychainError::Failure(error)) => {
            let mut message = "无法读取系统凭据存储：".to_owned();
            message.append(error.as_str());
            Err(message)
        },
    }
}

/// The API key stored for a provider, checked as `validate_api_key` checks a
/// new one. What the keychain holds is the machine's business: the result is
/// `stored_key` of whatever it answered, or the reason it could not be opened.
pub fn read_credential(provider_id: &str) -> (r: Result<String, String>)
    ensures
        keychain_read_possible(result_view(r)),
        r matches Ok(key) ==> api_key_result(key@) == Ok::<Seq<char>, Seq<char>>(key@),
{
    let entry = match keychain_entry(provider_id) {
        Ok(entry) => entry,
        Err(error) => {
            let mut message = "无法访问系统凭据存储：".to_owned();
            message.append(error.as_str());
            assert(result_view(Err::<String, String>(message)) == Err::<Seq<char>, Seq<char>>("无法访问系统凭据存储："@ + error@));
            return Err(message);
        },
    };
    let got = keychain_get(&entry);
    let ghost answer = got;
    let r = stored_key(got);
    assert(result_view(r) == stored_key_outcome(answer));
    r
}

/// Trimming twice is trimming once.
pub proof fn lemma_trim_idempotent(s: Seq<char>)
    ensures
        trim_spec(trim_spec(s)) == trim_spec(s),
{
    let t = trim_spec(s);
    lemma_trim_shape(s);
    lemma_trim_shape(t);
    if t.len() > 0 {
        assert(crate::text::first_solid(t) == 0) by {
            assert(!crate::text::is_white(t[0]));
        }
        assert(t.subrange(0, t.len() as int) == t);
        lemma_trim_end_fixed(t);
    } else {
        assert(trim_spec(t).len() == 0);
    }
}

/// A trimmed text neither starts nor ends with white space.
pub proof fn lemma_trim_shape(s: Seq<char>)
    ensures
        trim_spec(s).len() > 0 ==> !crate::text::is_white(trim_spec(s)[0]) && !crate::text::is_white(
            trim_spec(s).last(),
        ),
{
    let start = crate::text::first_solid(s);
    lemma_first_solid(s);
    let rest = s.subrange(start, s.len() as int);
    lemma_trim_end(rest);
    if trim_spec(s).len() > 0 {
        assert(trim_spec(s)[0] == rest[0]);
    }
}

proof fn lemma_first_solid(s: Seq<char>)
    ensures
        0 <= crate::text::first_solid(s) <= s.len(),
        crate::text::first_solid(s) < s.len() ==> !crate::text::is_white(
            s[crate::text::first_solid(s)],
        ),
    decreases s.len(),
{
    if s.len() > 0 && crate::text::is_white(s[0]) {
        lemma_first_solid(s.drop_first());
        let k = crate::text::first_solid(s.drop_first());
        if k < s.drop_first().len() {
            assert(s[k + 1] == s.drop_first()[k]);
        }
    }
}

proof fn lemma_trim_end(s: Seq<char>)
    ensures
        crate::text::trim_end_spec(s).len() <= s.len(),
        crate::text::trim_end_spec(s) == s.take(crate::text::trim_end_spec(s).len() as int),
        crate::text::trim_end_spec(s).len() > 0 ==> !crate::text::is_white(
            crate::text::trim_end_spec(s).last(),
        ),
    decreases s.len(),
{
    if s.len() > 0 && crate::text::is_white(s.last()) {
        lemma_trim_end(s.drop_last());
        let t = crate::text::trim_end_spec(s.drop_last());
        assert(s.drop_last().take(t.len() as int) == s.take(t.len() as int));
    } else {
        assert(s.take(s.len() as int) == s);
    }
}

proof fn lemma_trim_end_fixed(s: Seq<char>)
    requires
        s.len() > 0 ==> !crate::text::is_white(s.last()),
    ensures
        crate::text::trim_end_spec(s) == s,
{
}

/// Whether the keychain holds a usable key for the provider (the machine decides).
fn credential_exists(provider_id: &str) -> (r: bool) {
    read_credential(provider_id).is_ok()
}

/// Whether `e` is `prefix` followed by what the platform said.
pub open spec fn platform_error(e: Seq<char>, prefix: Seq<char>) -> bool {
    exists|detail: Seq<char>| e == prefix + detail
}

/// Stores a new API key, checked first. A key that fails the check is refused
/// with that check's message before the keychain is touched; otherwise the
/// keychain decides, and a refusal says whether it could not be opened or
/// could not be written.
pub fn save_credential(provider_id: &str, api_key: &str) -> (r: Result<(), String>)
    ensures
        match api_key_result(api_key@) {
            Err(e) => r matches Err(x) && x@ == e,
            Ok(_) => r is Ok || (r matches Err(x) && (platform_error(x@, "无法访问系统凭据存储："@)
                || platform_error(x@, "无法将 API Key 保存到系统凭据存储："@))),
        },
{
    let key = validate_api_key(api_key)?;
    let entry = match keychain_entry(provider_id) {
        Ok(entry) => entry,
        Err(error) => {
            let mut message = "无法访问系统凭据存储：".to_owned();
            message.append(error.as_str());
            assert(message@ == "无法访问系统凭据存储："@ + error@);
            return Err(message);
        },
    };
    match keychain_set(&entry, key.as_str()) {
        Ok(()) => Ok(()),
        Err(error) => {
            let mut message = "无法将 API Key 保存到系统凭据存储：".to_owned();
            message.append(error.as_str());
            assert(message@ == "无法将 API Key 保存到系统凭据存储："@ + error@);
            Err(message)
        },
    }
}

/// What the keychain's answer to a deletion makes of it: nothing to delete is
/// no error.
pub open spec fn deletion_outcome(got: Result<(), KeychainError>) -> Result<(), Seq<char>> {
    match got {
        Ok(()) => Ok(()),
        Err(KeychainError::NoEntry) => Ok(()),
        Err(KeychainError::Access(e)) => Err("无法从系统凭据存储删除 API Key："@ + e@),
        Err(KeychainError::Failure(e)) => Err("无法从系统凭据存储删除 API Key："@ + e@),
    }
}

pub open spec fn unit_result_view(r: Result<(), String>) -> Result<(), Seq<char>> {
    match r {
        Ok(()) => Ok(()),
        Err(e) => Err(e@),
    }
}

/// The outcome of a deletion, from what the keychain answered.
pub fn deletion_result(got: Result<(), KeychainError>) -> (r: Result<(), String>)
    ensures
        unit_result_view(r) == deletion_outcome(got),
{
    match got {
        Ok(()) => Ok(()),
        Err(KeychainError::NoEntry) => Ok(()),
        Err(KeychainError::Access(error)) => {
            let mut message = "无法从系统凭据存储删除 API Key：".to_owned();
            message.append(error.as_str());
            Err(message)
        },
        Err(KeychainError::Failure(error)) => {
            let mut message = "无法从系统凭据存储删除 API Key：".to_owned();
            message.append(error.as_str());
            Err(message)
        },
    }
}

/// Removes a provider's API key; a key that was never stored is no error. An
/// invalid provider ID is refused with the ID check's message; otherwise the
/// result is `deletion_result` of the keychain's answer, or the reason the
/// keychain could not be opened.
pub fn delete_credential(provider_id: &str) -> (r: Result<(), String>)
    ensures
        match identifier_result(provider_id@, "Provider ID"@) {
            Err(e) => r matches Err(x) && x@ == e,
            Ok(_) => (r matches Err(x) && platform_error(x@, "无法访问系统凭据存储："@))
                || exists|got: Result<(), KeychainError>| unit_result_view(r) == deletion_outcome(got),
        },
{
    let id = validate_identifier(provider_id, "Provider ID")?;
    let entry = match keychain_entry(id.as_str()) {
        Ok(entry) => entry,
        Err(error) => {
            let mut message = "无法访问系统凭据存储：".to_owned();
            message.append(error.as_str());
            assert(message@ == "无法访问系统凭据存储："@ + error@);
            return Err(message);
        },
    };
    let got = keychain_delete(&entry);
    let ghost answer = got;
    let r = deletion_result(got);
    assert(unit_result_view(r) == deletion_outcome(answer));
    r
}

/// What undoes a change of a provider's stored API key.
#[derive(Debug)]
pub struct CredentialRollback {
    pub provider_id: String,
    pub previous: Option<String>,
    pub changed: bool,
}

pub open spec fn nonblank(v: Option<String>) -> bool {
    match v {
        Some(k) => trim_spec(k@).len() > 0,
        None => false,
    }
}

/// What a keychain provider's switch comes to, given what reading its stored
/// key gave (`stored`): the rollback keeps that key, if there was one. A new
/// key in the request is checked and saved; without one, a stored key must exist.
pub open spec fn keychain_switch_outcome(
    r: Result<CredentialRollback, String>,
    id: Seq<char>,
    stored: Result<Seq<char>, Seq<char>>,
    api_key: Option<String>,
) -> bool {
    let previous = match stored {
        Ok(k) => Some(k),
        Err(_) => None::<Seq<char>>,
    };
    if nonblank(api_key) {
        match api_key_result(api_key.unwrap()@) {
            Err(e) => r matches Err(x) && x@ == e,
            Ok(_) => (r matches Ok(rb) && rb.provider_id@ == id && rb.changed && opt_view(rb.previous) == previous) || (
            r matches Err(x) && (platform_error(x@, "无法访问系统凭据存储："@) || platform_error(
                x@,
                "无法将 API Key 保存到系统凭据存储："@,
            ))),
        }
    } else {
        match previous {
            None => r matches Err(x) && x@ == "请先填写 API Key；保存后它只会进入系统凭据存储。"@,
            Some(k) => r matches Ok(rb) && rb.provider_id@ == id && !rb.changed && opt_view(rb.previous) == Some(k),
        }
    }
}

/// Saves the API key a provider switch carries, when the provider keeps its key
/// in the keychain, and returns what undoes it: the key stored before, if
/// reading it succeeded. Built-in providers and other credential modes change
/// nothing. Without a new key, a keychain provider needs one stored already.
pub fn persist_request_credential(request: &ProviderApplyRequest) -> (r: Result<
    CredentialRollback,
    String,
>)
    ensures
        match identifier_result(request.provider_id@, "Provider ID"@) {
            Err(e) => r matches Err(x) && x@ == e,
            Ok(id) => {
                let mode = credential_mode_result(*request);
                if builtin(id) || mode is Ok && mode != Ok::<Seq<char>, Seq<char>>("keychain"@) {
                    r matches Ok(rb) && rb.provider_id@ == id && !rb.changed && rb.previous is None
                } else if mode is Err {
                    r matches Err(x) && x@ == mode->Err_0
                } else {
                    exists|stored: Result<Seq<char>, Seq<char>>|
                        keychain_read_possible(stored) && keychain_switch_outcome(r, id, stored, request.api_key)
                }
            },
        },
{
    let provider_id = validate_identifier(request.provider_id.as_str(), "Provider ID")?;
    if is_builtin(provider_id.as_str()) {
        return Ok(CredentialRollback { provider_id, previous: None, changed: false });
    }
    let mode = credential_mode(request)?;
    if !str_eq(mode.as_str(), "keychain") {
        return Ok(CredentialRollback { provider_id, previous: None, changed: false });
    }
    let read = read_credential(provider_id.as_str());
    let ghost stored = result_view(read);
    let previous = match read {
        Ok(key) => Some(key),
        Err(_) => None,
    };
    let new_key = match &request.api_key {
        Some(k) => if !str_trim(k.as_str()).is_empty() {
            Some(k.as_str())
        } else {
            None
        },
        None => None,
    };
    let r = match new_key {
        Some(k) => {
            match save_credential(provider_id.as_str(), k) {
                Ok(()) => Ok(CredentialRollback { provider_id, previous, changed: true }),
                Err(e) => Err(e),
            }
        },
        None => {
            if previous.is_none() {
                Err("请先填写 API Key；保存后它只会进入系统凭据存储。".to_owned())
            } else {
                Ok(CredentialRollback { provider_id, previous, changed: false })
            }
        },
    };
    assert(keychain_read_possible(stored) && keychain_switch_outcome(r, identifier_result(request.provider_id@, "Provider ID"@)->Ok_0, stored, request.api_key));
    r
}

/// Puts back the key that was stored before a change, or removes the new one
/// when there was none; failures are ignored, as the change being undone has
/// already failed elsewhere.
pub fn rollback_credential(update: CredentialRollback) {
    if !update.changed {
        return;
    }
    match update.previous {
        Some(previous) => {
            let _ = save_credential(update.provider_id.as_str(), previous.as_str());
        },
        None => {
            let _ = delete_credential(update.provider_id.as_str());
        },
    }
}

/// One `config/batchWrite` edit.
pub open spec fn edit_model(key_path: Seq<char>, value: Json, strategy: Seq<char>) -> Json {
    Json::Object(
        seq![("keyPath"@, Json::Str(key_path)), ("value"@, value), ("mergeStrategy"@, Json::Str(strategy))],
    )
}

/// An edit of a Codex configuration key.
pub fn edit(key_path: &str, value: JsonValue, merge_strategy: &str) -> (r: JsonValue)
    ensures
        r@ == edit_model(key_path@, value@, merge_strategy@),
{
    let mut members: Vec<(String, JsonValue)> = Vec::new();
    members.push(("keyPath".to_owned(), JsonValue::text(key_path)));
    members.push(("value".to_owned(), value));
    members.push(("mergeStrategy".to_owned(), JsonValue::text(merge_strategy)));
    let r = JsonValue::object(members);
    assert(crate::json::members_view(members@) == seq![
        ("keyPath"@, Json::Str(key_path@)),
        ("value"@, members@[1].1@),
        ("mergeStrategy"@, Json::Str(merge_strategy@)),
    ]);
    r
}

pub open spec fn opt_member(key: Seq<char>, v: Option<String>) -> Seq<(Seq<char>, Json)> {
    match v {
        Some(x) => seq![(key, Json::Str(x@))],
        None => Seq::empty(),
    }
}

/// The `model_providers.{id}` table Codex is given for a provider; the API key
/// itself never appears in it.
pub open spec fn definition_value(d: ProviderDefinition) -> Json {
    Json::Object(
        seq![("name"@, Json::Str(d.name@)), ("wire_api"@, Json::Str("responses"@))] + opt_member(
            "base_url"@,
            d.base_url,
        ) + opt_member("env_key"@, d.env_key) + match d.auth_command {
            Some(command) => seq![
                (
                    "auth"@,
                    Json::Object(
                        seq![
                            ("command"@, Json::Str(command@)),
                            ("args"@, Json::Array(d.auth_args@.map_values(|a: String| Json::Str(a@)))),
                        ],
                    ),
                ),
            ],
            None => Seq::empty(),
        },
    )
}

pub open spec fn definition_edit(d: ProviderDefinition) -> Json {
    edit_model("model_providers."@ + d.id@, definition_value(d), "replace"@)
}

/// The edit that writes a provider's definition into the Codex configuration.
pub fn definition_edit_of(definition: &ProviderDefinition) -> (r: JsonValue)
    ensures
        r@ == definition_edit(*definition),
{
    let mut prefix = "model_providers.".to_owned();
    prefix.append(definition.id.as_str());
    let mut members: Vec<(String, JsonValue)> = Vec::new();
    members.push(("name".to_owned(), JsonValue::text(definition.name.as_str())));
    members.push(("wire_api".to_owned(), JsonValue::text("responses")));
    let ghost first = crate::json::members_view(members@);
    match &definition.base_url {
        Some(url) => members.push(("base_url".to_owned(), JsonValue::text(url.as_str()))),
        None => {},
    }
    assert(crate::json::members_view(members@) == first + opt_member("base_url"@, definition.base_url));
    let ghost second = crate::json::members_view(members@);
    match &definition.env_key {
        Some(key) => members.push(("env_key".to_owned(), JsonValue::text(key.as_str()))),
        None => {},
    }
    assert(crate::json::members_view(members@) == second + opt_member("env_key"@, definition.env_key));
    let ghost third = crate::json::members_view(members@);
    match &definition.auth_command {
        Some(command) => {
            let mut auth: Vec<(String, JsonValue)> = Vec::new();
            auth.push(("command".to_owned(), JsonValue::text(command.as_str())));
            auth.push(("args".to_owned(), JsonValue::string_array(&definition.auth_args)));
            let auth_value = JsonValue::object(auth);
            assert(crate::json::members_view(auth@) == seq![
                ("command"@, Json::Str(command@)),
                ("args"@, Json::Array(definition.auth_args@.map_values(|a: String| Json::Str(a@)))),
            ]);
            members.push(("auth".to_owned(), auth_value));
            assert(crate::json::members_view(members@) == third + seq![("auth"@, auth_value@)]);
        },
        None => {
            assert(crate::json::members_view(members@) == third);
        },
    }
    let value = JsonValue::object(members);
    proof {
        assert(first == seq![("name"@, Json::Str(definition.name@)), ("wire_api"@, Json::Str("responses"@))]);
        assert(second == first + opt_member("base_url"@, definition.base_url));
        assert(third == second + opt_member("env_key"@, definition.env_key));
        assert(value@ == definition_value(*definition));
    }
    edit(prefix.as_str(), value, "replace")
}

fn copy_strings(v: &Vec<String>) -> (r: Vec<String>)
    ensures
        r@.map_values(|s: String| s@) == v@.map_values(|s: String| s@),
        r@.len() == v@.len(),
        forall|i: int| 0 <= i < v@.len() ==> (#[trigger] r@[i])@ == v@[i]@,
{
    let mut out: Vec<String> = Vec::new();
    let mut i: usize = 0;
    while i < v.len()
        invariant
            i <= v@.len(),
            out@.len() == i,
            forall|k: int| 0 <= k < i ==> (#[trigger] out@[k])@ == v@[k]@,
        decreases v@.len() - i,
    {
        out.push(v[i].clone());
        i = i + 1;
    }
    assert(out@.map_values(|s: String| s@) == v@.map_values(|s: String| s@));
    out
}

fn copy_opt(v: &Option<String>) -> (r: Option<String>)
    ensures
        opt_view(r) == opt_view(*v),
{
    match v {
        Some(s) => Some(s.clone()),
        None => None,
    }
}

/// Two definitions that agree on every field's content.
pub open spec fn same_definition(a: ProviderDefinition, b: ProviderDefinition) -> bool {
    &&& a.id@ == b.id@
    &&& a.name@ == b.name@
    &&& opt_view(a.base_url) == opt_view(b.base_url)
    &&& opt_view(a.env_key) == opt_view(b.env_key)
    &&& a.env_available == b.env_available
    &&& a.credential_source@ == b.credential_source@
    &&& a.credential_available == b.credential_available
    &&& opt_view(a.auth_command) == opt_view(b.auth_command)
    &&& a.auth_args@.map_values(|s: String| s@) == b.auth_args@.map_values(|s: String| s@)
    &&& a.wire_api@ == b.wire_api@
    &&& a.protocol@ == b.protocol@
    &&& a.context_window == b.context_window
    &&& a.builtin == b.builtin
    &&& a.compatibility@ == b.compatibility@
}

/// A copy of a definition.
pub fn copy_definition(d: &ProviderDefinition) -> (r: ProviderDefinition)
    ensures
        same_definition(r, *d),
{
    ProviderDefinition {
        id: d.id.clone(),
        name: d.name.clone(),
        base_url: copy_opt(&d.base_url),
        env_key: copy_opt(&d.env_key),
        env_available: d.env_available,
        credential_source: d.credential_source.clone(),
        credential_available: d.credential_available,
        auth_command: copy_opt(&d.auth_command),
        auth_args: copy_strings(&d.auth_args),
        wire_api: d.wire_api.clone(),
        protocol: d.protocol.clone(),
        context_window: d.context_window,
        builtin: d.builtin,
        compatibility: d.compatibility.clone(),
    }
}

fn find_restorable(snapshot: &ProviderSnapshot) -> (r: Option<usize>)
    ensures
        match r {
            Some(k) => k < snapshot.providers@.len() && snapshot.providers@[k as int].id@
                == snapshot.active_provider@ && !snapshot.providers@[k as int].builtin && forall|j: int|
                0 <= j < k ==> !((#[trigger] snapshot.providers@[j]).id@ == snapshot.active_provider@
                    && !snapshot.providers@[j].builtin),
            None => forall|k: int|
                0 <= k < snapshot.providers@.len() ==> !((#[trigger] snapshot.providers@[k]).id@
                    == snapshot.active_provider@ && !snapshot.providers@[k].builtin),
        },
{
    let mut k: usize = 0;
    while k < snapshot.providers.len()
        invariant
            k <= snapshot.providers@.len(),
            forall|j: int|
                0 <= j < k ==> !((#[trigger] snapshot.providers@[j]).id@ == snapshot.active_provider@
                    && !snapshot.providers@[j].builtin),
        decreases snapshot.providers@.len() - k,
    {
        let item = &snapshot.providers[k];
        if str_eq(item.id.as_str(), snapshot.active_provider.as_str()) && !item.builtin {
            return Some(k);
        }
        k = k + 1;
    }
    None
}

/// The restore point for a snapshot: the active provider and model, and the
/// active provider's definition unless Codex has it built in.
pub fn restore_point(snapshot: &ProviderSnapshot) -> (r: ProviderRestorePoint)
    ensures
        r.provider_id@ == snapshot.active_provider@,
        opt_view(r.model) == opt_view(snapshot.active_model),
        match r.definition {
            Some(d) => exists|k: int|
                0 <= k < snapshot.providers@.len() && same_definition(d, #[trigger] snapshot.providers@[k])
                    && snapshot.providers@[k].id@ == snapshot.active_provider@
                    && !snapshot.providers@[k].builtin && forall|j: int|
                    0 <= j < k ==> !((#[trigger] snapshot.providers@[j]).id@
                        == snapshot.active_provider@ && !snapshot.providers@[j].builtin),
            None => forall|k: int|
                0 <= k < snapshot.providers@.len() ==> !((#[trigger] snapshot.providers@[k]).id@
                    == snapshot.active_provider@ && !snapshot.providers@[k].builtin),
        },
{
    let definition = match find_restorable(snapshot) {
        Some(k) => Some(copy_definition(&snapshot.providers[k])),
        None => None,
    };
    ProviderRestorePoint {
        provider_id: snapshot.active_provider.clone(),
        model: copy_opt(&snapshot.active_model),
        definition,
    }
}

pub open spec fn restore_edits_result(point: ProviderRestorePoint) -> Result<Seq<Json>, Seq<char>> {
    match identifier_result(point.provider_id@, "Provider ID"@) {
        Err(e) => Err(e),
        Ok(id) => {
            let first = seq![edit_model("model_provider"@, Json::Str(id), "replace"@)];
            let with_model = match point.model {
                Some(m) => match model_result(m@) {
                    Ok(model) => Ok(first.push(edit_model("model"@, Json::Str(model), "replace"@))),
                    Err(e) => Err(e),
                },
                None => Ok(first),
            };
            match with_model {
                Err(e) => Err(e),
                Ok(edits) => match point.definition {
                    Some(d) => Ok(edits.push(definition_edit(d))),
                    None => Ok(edits),
                },
            }
        },
    }
}

pub open spec fn edits_view(edits: Seq<JsonValue>) -> Seq<Json> {
    edits.map_values(|e: JsonValue| e@)
}

/// The configuration edits that switch back to a restore point.
pub fn restore_edits(point: &ProviderRestorePoint) -> (r: Result<Vec<JsonValue>, String>)
    ensures
        match r {
            Ok(edits) => restore_edits_result(*point) == Ok::<Seq<Json>, Seq<char>>(edits_view(edits@)),
            Err(e) => restore_edits_result(*point) == Err::<Seq<Json>, Seq<char>>(e@),
        },
{
    let provider_id = validate_identifier(point.provider_id.as_str(), "Provider ID")?;
    let mut edits: Vec<JsonValue> = Vec::new();
    let ghost id = provider_id@;
    edits.push(edit("model_provider", JsonValue::String(provider_id), "replace"));
    let ghost first = edits_view(edits@);
    assert(first == seq![edit_model("model_provider"@, Json::Str(id), "replace"@)]);
    match &point.model {
        Some(model) => {
            let m = validate_model(model.as_str())?;
            let ghost mv = m@;
            edits.push(edit("model", JsonValue::String(m), "replace"));
            assert(edits_view(edits@) == first.push(edit_model("model"@, Json::Str(mv), "replace"@)));
        },
        None => {},
    }
    let ghost second = edits_view(edits@);
    match &point.definition {
        Some(definition) => edits.push(definition_edit_of(definition)),
        None => {},
    }
    proof {
        assert(edits_view(edits@) == match point.definition {
            Some(d) => second.push(definition_edit(d)),
            None => second,
        });
    }
    Ok(edits)
}

/// The display name a custom provider gets: the trimmed name, or its ID.
pub open spec fn custom_name(request: ProviderApplyRequest, id: Seq<char>) -> Seq<char> {
    match request.name {
        Some(n) => if trim_spec(n@).len() > 0 {
            trim_spec(n@)
        } else {
            id
        },
        None => id,
    }
}

/// The first reason a custom provider request is refused, if any. `helper` is
/// the app's own executable path, or why it could not be found.
pub open spec fn custom_definition_error(request: ProviderApplyRequest, helper: Result<Seq<char>, Seq<char>>) -> Option<Seq<char>> {
    match identifier_result(request.provider_id@, "Provider ID"@) {
        Err(e) => Some(e),
        Ok(id) => {
            let name = custom_name(request, id);
            if encode_utf8(name).len() > 96 || has_control_break(name) {
                Some("Provider 名称过长或包含控制字符。"@)
            } else {
                match protocol_result(request) {
                    Err(e) => Some(e),
                    Ok(protocol) => endpoint_error(request, protocol == "chat_completions"@, helper),
                }
            }
        },
    }
}

/// The context window, base URL and credential checks of a custom provider.
pub open spec fn endpoint_error(request: ProviderApplyRequest, chat: bool, helper: Result<Seq<char>, Seq<char>>) -> Option<Seq<char>> {
    if chat && !(8_192 <= request.context_window <= 4_000_000) {
        Some("上下文窗口必须在 8,192 到 4,000,000 Token 之间。"@)
    } else {
        match request.base_url {
            None => Some("自定义 Provider 必须填写 API Base URL。"@),
            Some(url) => match provider_url_result(url@, chat) {
                Err(e) => Some(e),
                Ok(_) => credential_error(request, helper),
            },
        }
    }
}

/// The credential checks of a custom provider.
pub open spec fn credential_error(request: ProviderApplyRequest, helper: Result<Seq<char>, Seq<char>>) -> Option<Seq<char>> {
    match credential_mode_result(request) {
        Err(e) => Some(e),
        Ok(mode) => if mode == "environment"@ {
            match request.env_key {
                None => Some("使用环境变量时必须填写变量名。"@),
                Some(k) => match identifier_result(k@, "环境变量名"@) {
                    Err(e) => Some(e),
                    Ok(_) => None,
                },
            }
        } else if mode == "keychain"@ {
            match helper {
                Err(t) => Some("无法定位 Codex X-Ray 可执行文件："@ + t),
                Ok(_) => None,
            }
        } else {
            None
        },
    }
}

proof fn lemma_mode_names_distinct()
    ensures
        "keychain"@ != "environment"@,
        "keychain"@ != "none"@,
        "environment"@ != "none"@,
        "responses"@ != "chat_completions"@,
{
    reveal_strlit("keychain");
    reveal_strlit("environment");
    reveal_strlit("none");
    reveal_strlit("chat_completions");
    reveal_strlit("responses");
    assert("keychain"@.len() != "environment"@.len());
    assert("keychain"@.len() != "none"@.len());
    assert("environment"@.len() != "none"@.len());
    assert("responses"@.len() != "chat_completions"@.len());
}

pub open spec fn valid_key_given(request: ProviderApplyRequest) -> bool {
    match request.api_key {
        Some(k) => api_key_result(k@) is Ok,
        None => false,
    }
}

/// The fields of the definition a valid custom provider request gives.
/// `env_present` says whether the environment has the variable the request
/// names. In keychain mode the key is available when the request carries a
/// valid one; otherwise the keychain decides.
pub open spec fn custom_definition_fields(
    d: ProviderDefinition,
    request: ProviderApplyRequest,
    helper: Result<Seq<char>, Seq<char>>,
    env_present: bool,
) -> bool {
    let id = identifier_result(request.provider_id@, "Provider ID"@)->Ok_0;
    let protocol = protocol_result(request)->Ok_0;
    let chat = protocol == "chat_completions"@;
    let mode = credential_mode_result(request)->Ok_0;
    let upstream = provider_url_result(request.base_url.unwrap()@, chat)->Ok_0;
    let env_key = if mode == "environment"@ {
        Some(trim_spec(request.env_key.unwrap()@))
    } else {
        None::<Seq<char>>
    };
    &&& d.id@ == id
    &&& d.name@ == custom_name(request, id)
    &&& opt_view(d.base_url) == Some(
        if chat {
            crate::chat_bridge::provider_base_text(id)
        } else {
            upstream
        },
    )
    &&& opt_view(d.env_key) == env_key
    &&& d.env_available == (env_key is Some && env_present)
    &&& d.credential_source@ == mode
    &&& (mode == "keychain"@ ==> opt_view(d.auth_command) == Some(helper->Ok_0) && d.auth_args@.map_values(
        |a: String| a@,
    ) == seq![CREDENTIAL_HELPER_ARG@, id])
    &&& (mode != "keychain"@ ==> d.auth_command is None && d.auth_args@.len() == 0)
    &&& (mode == "environment"@ ==> d.credential_available == env_present)
    &&& (mode == "none"@ ==> d.credential_available)
    &&& (mode == "keychain"@ && valid_key_given(request) ==> d.credential_available)
    &&& d.wire_api@ == "responses"@
    &&& d.protocol@ == protocol
    &&& d.context_window == if chat {
        Some(request.context_window)
    } else {
        None::<u64>
    }
    &&& !d.builtin
    &&& d.compatibility@ == if chat {
        "chat_bridge"@
    } else {
        "responses"@
    }
}

pub open spec fn helper_view(helper: &Result<String, String>) -> Result<Seq<char>, Seq<char>> {
    match helper {
        Ok(s) => Ok(s@),
        Err(e) => Err(e@),
    }
}

/// The definition of a custom provider, from a switch request.
pub fn custom_definition(
    request: &ProviderApplyRequest,
    helper_executable: &Result<String, String>,
    env_present: bool,
) -> (r: Result<ProviderDefinition, String>)
    ensures
        match r {
            Ok(d) => custom_definition_error(*request, helper_view(helper_executable)) is None
                && custom_definition_fields(d, *request, helper_view(helper_executable), env_present),
            Err(e) => custom_definition_error(*request, helper_view(helper_executable)) == Some(e@),
        },
{
    let id = validate_identifier(request.provider_id.as_str(), "Provider ID")?;
    let name = match &request.name {
        Some(n) => {
            let t = str_trim(n.as_str());
            if !t.is_empty() {
                t.to_owned()
            } else {
                id.clone()
            }
        },
        None => id.clone(),
    };
    if name.as_str().as_bytes().len() > 96 || contains_control_break(name.as_str()) {
        return Err("Provider 名称过长或包含控制字符。".to_owned());
    }
    let protocol = provider_protocol(request)?;
    let chat = str_eq(protocol.as_str(), "chat_completions");
    let context_window = if chat {
        Some(validate_context_window(request.context_window)?)
    } else {
        None
    };
    let upstream = match &request.base_url {
        Some(url) => validate_provider_url(url.as_str(), chat)?,
        None => {
            return Err("自定义 Provider 必须填写 API Base URL。".to_owned());
        },
    };
    let base_url = if chat {
        crate::chat_bridge::provider_base_url(id.as_str())
    } else {
        upstream
    };
    let mode = credential_mode(request)?;
    proof {
        lemma_mode_names_distinct();
    }
    let environment = str_eq(mode.as_str(), "environment");
    let keychain = str_eq(mode.as_str(), "keychain");
    let env_key = if environment {
        match &request.env_key {
            Some(k) => Some(validate_identifier(k.as_str(), "环境变量名")?),
            None => {
                return Err("使用环境变量时必须填写变量名。".to_owned());
            },
        }
    } else {
        None
    };
    let (auth_command, auth_args) = if keychain {
        match helper_executable {
            Ok(executable) => {
                let mut args: Vec<String> = Vec::new();
                args.push(CREDENTIAL_HELPER_ARG.to_owned());
                args.push(id.clone());
                (Some(executable.clone()), args)
            },
            Err(error) => {
                let mut message = "无法定位 Codex X-Ray 可执行文件：".to_owned();
                message.append(error.as_str());
                return Err(message);
            },
        }
    } else {
        (None, Vec::new())
    };
    let env_available = env_key.is_some() && env_present;
    let credential_available = if keychain {
        let given = match &request.api_key {
            Some(k) => validate_api_key(k.as_str()).is_ok(),
            None => false,
        };
        given || credential_exists(id.as_str())
    } else if environment {
        env_present
    } else {
        true
    };
    let compatibility = if chat {
        "chat_bridge".to_owned()
    } else {
        "responses".to_owned()
    };
    let d = ProviderDefinition {
        id,
        name,
        base_url: Some(base_url),
        env_key,
        env_available,
        credential_source: mode,
        credential_available,
        auth_command,
        auth_args,
        wire_api: "responses".to_owned(),
        protocol,
        context_window,
        builtin: false,
        compatibility,
    };
    proof {
        if keychain {
            assert(d.auth_args@.map_values(|a: String| a@) == seq![CREDENTIAL_HELPER_ARG@, d.id@]);
        }
    }
    Ok(d)
}

pub open spec fn apply_edits_result(request: ProviderApplyRequest, helper: Result<Seq<char>, Seq<char>>) -> Option<Seq<char>> {
    match identifier_result(request.provider_id@, "Provider ID"@) {
        Err(e) => Some(e),
        Ok(id) => match model_result(request.model@) {
            Err(e) => Some(e),
            Ok(_) => if builtin(id) {
                match protocol_result(request) {
                    Err(e) => Some(e),
                    Ok(p) => if p != "responses"@ {
                        Some("Codex 内置 Provider 不能改为 Chat Completions。"@)
                    } else {
                        None
                    },
                }
            } else {
                custom_definition_error(request, helper)
            },
        },
    }
}

/// The configuration edits that switch Codex to the requested provider and
/// model, and the custom definition they write (none for a built-in provider).
pub fn build_apply_edits(
    request: &ProviderApplyRequest,
    helper_executable: &Result<String, String>,
    env_present: bool,
) -> (r: Result<(Vec<JsonValue>, Option<ProviderDefinition>), String>)
    ensures
        match r {
            Ok((edits, definition)) => {
                let id = identifier_result(request.provider_id@, "Provider ID"@)->Ok_0;
                let model = model_result(request.model@)->Ok_0;
                &&& apply_edits_result(*request, helper_view(helper_executable)) is None
                &&& edits@.len() >= 2
                &&& edits@[0]@ == edit_model("model_provider"@, Json::Str(id), "replace"@)
                &&& edits@[1]@ == edit_model("model"@, Json::Str(model), "replace"@)
                &&& match definition {
                    Some(d) => !builtin(id) && edits@.len() == 3 && edits@[2]@ == definition_edit(d)
                        && custom_definition_fields(
                        d,
                        *request,
                        helper_view(helper_executable),
                        env_present,
                    ),
                    None => builtin(id) && edits@.len() == 2,
                }
            },
            Err(e) => apply_edits_result(*request, helper_view(helper_executable)) == Some(e@),
        },
{
    let provider_id = validate_identifier(request.provider_id.as_str(), "Provider ID")?;
    let model = validate_model(request.model.as_str())?;
    let is_builtin_provider = is_builtin(provider_id.as_str());
    if is_builtin_provider {
        let protocol = provider_protocol(request)?;
        if !str_eq(protocol.as_str(), "responses") {
            return Err("Codex 内置 Provider 不能改为 Chat Completions。".to_owned());
        }
    }
    let definition = if is_builtin_provider {
        None
    } else {
        Some(custom_definition(request, helper_executable, env_present)?)
    };
    let mut edits: Vec<JsonValue> = Vec::new();
    edits.push(edit("model_provider", JsonValue::String(provider_id), "replace"));
    edits.push(edit("model", JsonValue::String(model), "replace"));
    match &definition {
        Some(d) => edits.push(definition_edit_of(d)),
        None => {},
    }
    Ok((edits, definition))
}

/// The credential a connection test sends.
#[derive(Debug)]
pub enum ProbeCredential {
    /// An API key, already checked.
    Key(String),
    /// The value of this environment variable, which the caller reads and
    /// passes through `environment_credential`.
    Environment(String),
    /// No credential.
    Anonymous,
}

/// Everything a connection test needs before the request is sent.
#[derive(Debug)]
pub struct ProbePlan {
    pub provider_id: String,
    pub model: String,
    pub chat: bool,
    pub endpoint: String,
    pub body: JsonValue,
    pub credential: ProbeCredential,
}

/// The marker curl is told to print before the HTTP status.
pub open spec fn status_marker() -> Seq<char> {
    "\n__CODEX_XRAY_HTTP_STATUS__:"@
}

/// The request body of a connection test.
pub open spec fn probe_body(model: Seq<char>, chat: bool) -> Json {
    if chat {
        Json::Object(
            seq![
                ("model"@, Json::Str(model)),
                (
                    "messages"@,
                    Json::Array(
                        seq![
                            Json::Object(
                                seq![("role"@, Json::Str("user"@)), ("content"@, Json::Str("Return only OK."@))],
                            ),
                        ],
                    ),
                ),
                ("max_tokens"@, Json::Number(crate::json::NumberModel::Unsigned(16))),
                ("stream"@, Json::Bool(false)),
            ],
        )
    } else {
        Json::Object(
            seq![
                ("model"@, Json::Str(model)),
                ("input"@, Json::Str("Return only OK."@)),
                ("max_output_tokens"@, Json::Number(crate::json::NumberModel::Unsigned(16))),
                ("store"@, Json::Bool(false)),
                ("stream"@, Json::Bool(false)),
            ],
        )
    }
}

fn probe_body_of(model: &str, chat: bool) -> (r: JsonValue)
    ensures
        r@ == probe_body(model@, chat),
{
    let mut members: Vec<(String, JsonValue)> = Vec::new();
    members.push(("model".to_owned(), JsonValue::text(model)));
    if chat {
        let mut message: Vec<(String, JsonValue)> = Vec::new();
        message.push(("role".to_owned(), JsonValue::text("user")));
        message.push(("content".to_owned(), JsonValue::text("Return only OK.")));
        let message_value = JsonValue::object(message);
        let mut list: Vec<JsonValue> = Vec::new();
        list.push(message_value);
        let list_value = JsonValue::array(list);
        members.push(("messages".to_owned(), list_value));
        members.push(("max_tokens".to_owned(), JsonValue::Number(crate::json::JsonNumber::Unsigned(16))));
        members.push(("stream".to_owned(), JsonValue::Bool(false)));
        proof {
            assert(crate::json::members_view(message@) == seq![("role"@, Json::Str("user"@)), ("content"@, Json::Str("Return only OK."@))]);
            assert(crate::json::items_view(list@) == seq![message_value@]);
            assert(crate::json::members_view(members@) == seq![
                ("model"@, Json::Str(model@)),
                ("messages"@, list_value@),
                ("max_tokens"@, Json::Number(crate::json::NumberModel::Unsigned(16))),
                ("stream"@, Json::Bool(false)),
            ]);
        }
    } else {
        members.push(("input".to_owned(), JsonValue::text("Return only OK.")));
        members.push(("max_output_tokens".to_owned(), JsonValue::Number(crate::json::JsonNumber::Unsigned(16))));
        members.push(("store".to_owned(), JsonValue::Bool(false)));
        members.push(("stream".to_owned(), JsonValue::Bool(false)));
        assert(crate::json::members_view(members@) == seq![
            ("model"@, Json::Str(model@)),
            ("input"@, Json::Str("Return only OK."@)),
            ("max_output_tokens"@, Json::Number(crate::json::NumberModel::Unsigned(16))),
            ("store"@, Json::Bool(false)),
            ("stream"@, Json::Bool(false)),
        ]);
    }
    let r = JsonValue::object(members);
    assert(r@ == probe_body(model@, chat));
    r
}

/// The built-in providers' display names and default addresses.
pub open spec fn builtin_name(id: Seq<char>) -> Seq<char> {
    if id == "openai"@ {
        "OpenAI"@
    } else if id == "ollama"@ {
        "Ollama"@
    } else if id == "lmstudio"@ {
        "LM Studio"@
    } else {
        "Amazon Bedrock"@
    }
}

pub open spec fn builtin_default_url(id: Seq<char>) -> Option<Seq<char>> {
    if id == "openai"@ {
        None
    } else if id == "ollama"@ {
        Some("http://localhost:11434/v1"@)
    } else if id == "lmstudio"@ {
        Some("http://localhost:1234/v1"@)
    } else {
        None
    }
}

fn builtin_entry(id: &str) -> (r: (&'static str, Option<&'static str>))
    ensures
        r.0@ == builtin_name(id@),
        crate::json::opt_str_view(r.1) == builtin_default_url(id@),
{
    if str_eq(id, "openai") {
        ("OpenAI", None)
    } else if str_eq(id, "ollama") {
        ("Ollama", Some("http://localhost:11434/v1"))
    } else if str_eq(id, "lmstudio") {
        ("LM Studio", Some("http://localhost:1234/v1"))
    } else {
        ("Amazon Bedrock", None)
    }
}

/// Reads the environment variable a connection test uses; `value` is what the
/// process environment holds for `key`.
pub fn environment_credential(key: &str, value: Option<String>) -> (r: Result<String, String>)
    ensures
        match value {
            None => r matches Err(e) && e@ == "当前应用进程没有检测到环境变量 "@ + key@ + "。"@,
            Some(v) => if v@.len() == 0 || has_control_break(v@) {
                r matches Err(e) && e@ == "环境变量 "@ + key@ + " 为空或包含无效字符。"@
            } else {
                r matches Ok(k) && k@ == v@
            },
        },
{
    match value {
        None => {
            let mut message = "当前应用进程没有检测到环境变量 ".to_owned();
            message.append(key);
            message.append("。");
            Err(message)
        },
        Some(v) => {
            if v.as_str().is_empty() || contains_control_break(v.as_str()) {
                let mut message = "环境变量 ".to_owned();
                message.append(key);
                message.append(" 为空或包含无效字符。");
                Err(message)
            } else {
                Ok(v)
            }
        },
    }
}

/// What a connection test is aimed at, before a credential is chosen.
pub struct ProbeTarget {
    pub id: Seq<char>,
    pub model: Seq<char>,
    pub chat: bool,
    pub endpoint: Seq<char>,
    pub env_key: Option<Seq<char>>,
    pub keychain: bool,
}

/// The environment variable a built-in provider's request names, checked.
pub open spec fn probe_env_key(request: ProviderApplyRequest) -> Result<Option<Seq<char>>, Seq<char>> {
    match request.env_key {
        Some(k) => match identifier_result(k@, "环境变量名"@) {
            Ok(v) => Ok(Some(v)),
            Err(e) => Err(e),
        },
        None => Ok(None),
    }
}

/// The base address, environment variable and credential mode of the provider
/// under test, or the first reason its request is refused. A built-in
/// provider is tested at the address the request gives, else at its default.
pub open spec fn probe_definition(
    request: ProviderApplyRequest,
    helper: Result<Seq<char>, Seq<char>>,
    id: Seq<char>,
    chat: bool,
) -> Result<(Seq<char>, Option<Seq<char>>, Seq<char>), Seq<char>> {
    if builtin(id) {
        let base = match request.base_url {
            Some(u) => provider_url_result(u@, false),
            None => match builtin_default_url(id) {
                Some(u) => Ok(u),
                None => Err(builtin_name(id) + " 的凭据由 Codex 内部管理，无法从外部发送探测请求。请改用 Codex 官方模型目录验证。"@),
            },
        };
        match base {
            Err(e) => Err(e),
            Ok(b) => match probe_env_key(request) {
                Err(e) => Err(e),
                Ok(env) => match credential_mode_result(request) {
                    Err(e) => Err(e),
                    Ok(mode) => Ok((b, env, mode)),
                },
            },
        }
    } else {
        match custom_definition_error(request, helper) {
            Some(e) => Err(e),
            None => {
                let mode = credential_mode_result(request)->Ok_0;
                let base = if chat {
                    crate::chat_bridge::provider_base_text(id)
                } else {
                    provider_url_result(request.base_url.unwrap()@, chat)->Ok_0
                };
                let env = if mode == "environment"@ {
                    Some(trim_spec(request.env_key.unwrap()@))
                } else {
                    None::<Seq<char>>
                };
                Ok((base, env, mode))
            },
        }
    }
}

/// Where a connection test goes: the Chat Completions endpoint of the address
/// the request gives, or `/responses` under the provider's base address.
pub open spec fn probe_endpoint(request: ProviderApplyRequest, chat: bool, base: Seq<char>) -> Result<Seq<char>, Seq<char>> {
    if chat {
        match request.base_url {
            None => Err("没有可探测的 Chat Completions 地址。"@),
            Some(u) => match provider_url_result(u@, true) {
                Err(e) => Err(e),
                Ok(b) => Ok(crate::chat_bridge::chat_endpoint_text(b)),
            },
        }
    } else {
        Ok(trim_end_char(base, '/') + "/responses"@)
    }
}

/// The target of a connection test, or the first reason the request is refused.
pub open spec fn probe_target(request: ProviderApplyRequest, helper: Result<Seq<char>, Seq<char>>) -> Result<ProbeTarget, Seq<char>> {
    match identifier_result(request.provider_id@, "Provider ID"@) {
        Err(e) => Err(e),
        Ok(id) => match model_result(request.model@) {
            Err(e) => Err(e),
            Ok(model) => match protocol_result(request) {
                Err(e) => Err(e),
                Ok(protocol) => {
                    let chat = protocol == "chat_completions"@;
                    match probe_definition(request, helper, id, chat) {
                        Err(e) => Err(e),
                        Ok((base, env, mode)) => match probe_endpoint(request, chat, base) {
                            Err(e) => Err(e),
                            Ok(endpoint) => Ok(
                                ProbeTarget { id, model, chat, endpoint, env_key: env, keychain: mode == "keychain"@ },
                            ),
                        },
                    }
                },
            },
        },
    }
}

/// `p` is the plan for target `t` with a credential not yet looked at.
pub open spec fn plan_for(p: ProbePlan, t: ProbeTarget) -> bool {
    &&& p.provider_id@ == t.id
    &&& p.model@ == t.model
    &&& p.chat == t.chat
    &&& p.endpoint@ == t.endpoint
    &&& p.body@ == probe_body(t.model, t.chat)
}

/// What a connection test is planned as: a key the request carries wins;
/// otherwise a keychain provider sends what `stored` (the keychain's read)
/// gives, and any other one names its environment variable, or sends nothing.
pub open spec fn probe_plan_outcome(
    r: Result<ProbePlan, String>,
    request: ProviderApplyRequest,
    helper: Result<Seq<char>, Seq<char>>,
    stored: Result<Seq<char>, Seq<char>>,
) -> bool {
    match probe_target(request, helper) {
        Err(e) => r matches Err(x) && x@ == e,
        Ok(t) => {
            let key = if nonblank(request.api_key) {
                Some(api_key_result(request.api_key.unwrap()@))
            } else if t.keychain {
                Some(stored)
            } else {
                None
            };
            match key {
                Some(Err(e)) => r matches Err(x) && x@ == e,
                Some(Ok(k)) => r matches Ok(p) && plan_for(p, t) && (p.credential matches ProbeCredential::Key(x) && x@ == k),
                None => r matches Ok(p) && plan_for(p, t) && match t.env_key {
                    Some(v) => p.credential matches ProbeCredential::Environment(x) && x@ == v,
                    None => p.credential is Anonymous,
                },
            }
        },
    }
}

/// What a connection test sends, where, and with which credential. Built-in
/// providers can be tested only at an address given in the request or their
/// default one. The keychain is read here when the provider keeps its key
/// there and the request carries none; the result is then as the read came out.
pub fn probe_plan(
    request: &ProviderApplyRequest,
    helper_executable: &Result<String, String>,
    env_present: bool,
) -> (r: Result<ProbePlan, String>)
    ensures
        exists|stored: Result<Seq<char>, Seq<char>>|
            keychain_read_possible(stored) && probe_plan_outcome(r, *request, helper_view(helper_executable), stored),
{
    let target = match probe_target_of(request, helper_executable, env_present) {
        Ok(t) => t,
        Err(e) => {
            proof {
                lemma_read_possible();
            }
            return Err(e);
        },
    };
    proof {
        lemma_mode_names_distinct();
    }
    let ghost t = target.view();
    let ghost mut stored = stored_key_outcome(Err(KeychainError::NoEntry));
    let given = match &request.api_key {
        Some(k) => if !str_trim(k.as_str()).is_empty() {
            Some(k.as_str())
        } else {
            None
        },
        None => None,
    };
    let credential = match given {
        Some(k) => match validate_api_key(k) {
            Ok(key) => ProbeCredential::Key(key),
            Err(e) => {
                proof {
                    lemma_read_possible();
                }
                return Err(e);
            },
        },
        None => if target.keychain {
            let read = read_credential(target.provider_id.as_str());
            proof {
                stored = result_view(read);
            }
            match read {
                Ok(key) => ProbeCredential::Key(key),
                Err(e) => {
                    return Err(e);
                },
            }
        } else {
            match target.env_key {
                Some(key) => ProbeCredential::Environment(key),
                None => ProbeCredential::Anonymous,
            }
        },
    };
    proof {
        lemma_read_possible();
    }
    let body = probe_body_of(target.model.as_str(), target.chat);
    let r = Ok(
        ProbePlan {
            provider_id: target.provider_id,
            model: target.model,
            chat: target.chat,
            endpoint: target.endpoint,
            body,
            credential,
        },
    );
    assert(keychain_read_possible(stored) && probe_plan_outcome(r, *request, helper_view(helper_executable), stored));
    r
}

proof fn lemma_read_possible()
    ensures
        keychain_read_possible(stored_key_outcome(Err(KeychainError::NoEntry))),
{
    let got: Result<String, KeychainError> = Err(KeychainError::NoEntry);
    assert(stored_key_outcome(got) == stored_key_outcome(got));
}

/// A connection test's target, as the code carries it.
struct Target {
    provider_id: String,
    model: String,
    chat: bool,
    endpoint: String,
    env_key: Option<String>,
    keychain: bool,
}

impl Target {
    spec fn view(self) -> ProbeTarget {
        ProbeTarget {
            id: self.provider_id@,
            model: self.model@,
            chat: self.chat,
            endpoint: self.endpoint@,
            env_key: opt_view(self.env_key),
            keychain: self.keychain,
        }
    }
}

/// The target of a connection test, checked as `probe_target` says.
fn probe_target_of(
    request: &ProviderApplyRequest,
    helper_executable: &Result<String, String>,
    env_present: bool,
) -> (r: Result<Target, String>)
    ensures
        match r {
            Ok(t) => probe_target(*request, helper_view(helper_executable)) == Ok::<ProbeTarget, Seq<char>>(t.view()),
            Err(e) => probe_target(*request, helper_view(helper_executable)) == Err::<ProbeTarget, Seq<char>>(e@),
        },
{
    proof {
        lemma_mode_names_distinct();
    }
    let provider_id = validate_identifier(request.provider_id.as_str(), "Provider ID")?;
    let model = validate_model(request.model.as_str())?;
    let protocol = provider_protocol(request)?;
    let chat = str_eq(protocol.as_str(), "chat_completions");
    let (base, env_key, mode) = if is_builtin(provider_id.as_str()) {
        let (name, default_url) = builtin_entry(provider_id.as_str());
        let base_url = match &request.base_url {
            Some(url) => validate_base_url(url.as_str())?,
            None => match default_url {
                Some(url) => url.to_owned(),
                None => {
                    let mut message = name.to_owned();
                    message.append(" 的凭据由 Codex 内部管理，无法从外部发送探测请求。请改用 Codex 官方模型目录验证。");
                    return Err(message);
                },
            },
        };
        let env_key = match &request.env_key {
            Some(k) => Some(validate_identifier(k.as_str(), "环境变量名")?),
            None => None,
        };
        let mode = credential_mode(request)?;
        (base_url, env_key, mode)
    } else {
        let d = custom_definition(request, helper_executable, env_present)?;
        let base_url = match d.base_url {
            Some(url) => url,
            None => {
                return Err("没有可探测的 Responses API 地址。".to_owned());
            },
        };
        (base_url, d.env_key, d.credential_source)
    };
    assert(probe_definition(*request, helper_view(helper_executable), provider_id@, chat) == Ok::<
        (Seq<char>, Option<Seq<char>>, Seq<char>),
        Seq<char>,
    >((base@, opt_view(env_key), mode@)));
    let endpoint = if chat {
        let upstream = match &request.base_url {
            Some(url) => validate_provider_url(url.as_str(), true)?,
            None => {
                return Err("没有可探测的 Chat Completions 地址。".to_owned());
            },
        };
        crate::chat_bridge::chat_endpoint(upstream.as_str())
    } else {
        let mut out = trim_end_slashes(base.as_str());
        out.append("/responses");
        out
    };
    let keychain = str_eq(mode.as_str(), "keychain");
    Ok(Target { provider_id, model, chat, endpoint, env_key, keychain })
}

/// The start of the last occurrence of `pat` in `s` at or before `upto`.
pub open spec fn last_occurrence(s: Seq<char>, pat: Seq<char>, upto: int) -> Option<int>
    decreases upto + 1,
{
    if upto < 0 {
        None
    } else if upto + pat.len() <= s.len() && s.subrange(upto, upto + pat.len()) == pat {
        Some(upto)
    } else {
        last_occurrence(s, pat, upto - 1)
    }
}

/// `s.rsplit_once(pat)`: the text before and after the last occurrence.
pub open spec fn rsplit_once_text(s: Seq<char>, pat: Seq<char>) -> Option<(Seq<char>, Seq<char>)> {
    match last_occurrence(s, pat, s.len() - pat.len()) {
        Some(i) => Some((s.take(i), s.skip(i + pat.len()))),
        None => None,
    }
}

fn rsplit_once(value: &str, pat: &str) -> (r: Option<(String, String)>)
    ensures
        match r {
            Some((a, b)) => rsplit_once_text(value@, pat@) == Some((a@, b@)),
            None => rsplit_once_text(value@, pat@) is None,
        },
{
    let chars = chars_of(value);
    let pattern = chars_of(pat);
    if pattern.len() > chars.len() {
        assert(last_occurrence(value@, pat@, value@.len() - pat@.len()) is None);
        return None;
    }
    let mut i: usize = chars.len() - pattern.len();
    loop
        invariant
            chars@ == value@,
            pattern@ == pat@,
            i + pattern@.len() <= chars@.len(),
            chars@.len() <= usize::MAX,
            last_occurrence(value@, pat@, value@.len() - pat@.len()) == last_occurrence(
                value@,
                pat@,
                i as int,
            ),
        decreases i,
    {
        if crate::text::prefix_at(&chars, i, &pattern) {
            assert(chars@.skip(i as int).subrange(0, pat@.len() as int) == chars@.subrange(
                i as int,
                i + pat@.len(),
            ));
            let before = string_of_range(chars.as_slice(), 0, i);
            let after = string_of_range(chars.as_slice(), i + pattern.len(), chars.len());
            assert(chars@.subrange(0, i as int) == value@.take(i as int));
            assert(chars@.subrange(i + pat@.len(), chars@.len() as int) == value@.skip(
                i + pat@.len(),
            ));
            return Some((before, after));
        }
        assert(chars@.skip(i as int).subrange(0, pat@.len() as int) == chars@.subrange(
            i as int,
            i + pat@.len(),
        ));
        assert(last_occurrence(value@, pat@, i as int) == last_occurrence(value@, pat@, i - 1));
        if i == 0 {
            return None;
        }
        i = i - 1;
    }
}

pub open spec fn digit_value(c: char) -> nat {
    (c as nat - '0' as nat) as nat
}

/// The number the decimal digits `s` spell.
pub open spec fn digits_value(s: Seq<char>) -> nat
    decreases s.len(),
{
    if s.len() == 0 {
        0
    } else {
        digits_value(s.drop_last()) * 10 + digit_value(s.last())
    }
}

pub open spec fn all_digits(s: Seq<char>) -> bool {
    forall|i: int| 0 <= i < s.len() ==> crate::text::is_ascii_digit(#[trigger] s[i])
}

/// `s.parse::<u16>()`: an optional `+`, then one or more digits, at most 65535.
pub open spec fn parsed_u16(s: Seq<char>) -> Option<u16> {
    let digits = if s.len() > 0 && s[0] == '+' {
        s.drop_first()
    } else {
        s
    };
    if digits.len() > 0 && all_digits(digits) && digits_value(digits) <= 65535 {
        Some(digits_value(digits) as u16)
    } else {
        None
    }
}

proof fn lemma_digits_value_grows(s: Seq<char>, k: int)
    requires
        0 <= k <= s.len(),
        all_digits(s),
    ensures
        digits_value(s.take(k)) <= digits_value(s),
    decreases s.len() - k,
{
    if k < s.len() {
        lemma_digits_value_grows(s, k + 1);
        assert(s.take(k + 1).drop_last() == s.take(k));
    } else {
        assert(s.take(k) == s);
    }
}

/// Reads a decimal `u16` as `str::parse` does.
pub fn parse_u16(text: &str) -> (r: Option<u16>)
    ensures
        r == parsed_u16(text@),
{
    let chars = chars_of(text);
    let start: usize = if chars.len() > 0 && chars[0] == '+' {
        1
    } else {
        0
    };
    let ghost digits = if text@.len() > 0 && text@[0] == '+' {
        text@.drop_first()
    } else {
        text@
    };
    assert(digits == chars@.skip(start as int));
    if chars.len() == start {
        return None;
    }
    let mut value: u32 = 0;
    let mut i: usize = start;
    while i < chars.len()
        invariant
            start <= i <= chars@.len(),
            chars@ == text@,
            digits == chars@.skip(start as int),
            digits == (if text@.len() > 0 && text@[0] == '+' {
                text@.drop_first()
            } else {
                text@
            }),
            value == digits_value(digits.take(i - start)),
            value <= 65535,
            all_digits(digits.take(i - start)),
        decreases chars@.len() - i,
    {
        let c = chars[i];
        assert(digits.take(i - start + 1).drop_last() == digits.take(i - start));
        assert(digits.take(i - start + 1).last() == c);
        assert(digits[i - start] == c);
        if c < '0' || c > '9' {
            assert(!crate::text::is_ascii_digit(digits[i - start]));
            assert(!all_digits(digits));
            return None;
        }
        let d = (c as u32) - ('0' as u32);
        let next = value * 10 + d;
        if next > 65535 {
            proof {
                assert(all_digits(digits.take(i - start + 1)));
                assert(digit_value(c) == d);
                assert(digits_value(digits.take(i - start + 1)) == value * 10 + d);
                if all_digits(digits) {
                    lemma_digits_value_grows(digits, i - start + 1);
                }
            }
            return None;
        }
        value = next;
        i = i + 1;
    }
    assert(digits.take(i - start) == digits);
    Some(value as u16)
}

pub open spec fn error_message_text(response: Seq<char>) -> Seq<char> {
    let trimmed = trim_spec(response);
    let message = match crate::web::json_text_at(trimmed, "/error/message"@) {
        Some(found) => match found {
            Some(m) => m,
            None => trimmed,
        },
        None => match crate::web::json_text_at(trimmed, "/message"@) {
            Some(Some(m)) => m,
            _ => trimmed,
        },
    };
    if message.len() == 0 {
        "Provider 拒绝了探测请求，但没有返回错误正文。"@
    } else {
        truncated_message(message)
    }
}

/// The error a provider returned, from `error.message` or `message` when the
/// body is JSON, else the body itself.
pub fn response_error_message(response: &str) -> (r: String)
    ensures
        r@ == error_message_text(response@),
{
    let trimmed = str_trim(response);
    let message: String = match crate::web::json_string_at(trimmed, "/error/message") {
        Some(found) => match found {
            Some(m) => m,
            None => trimmed.to_owned(),
        },
        None => match crate::web::json_string_at(trimmed, "/message") {
            Some(Some(m)) => m,
            _ => trimmed.to_owned(),
        },
    };
    if message.as_str().is_empty() {
        "Provider 拒绝了探测请求，但没有返回错误正文。".to_owned()
    } else {
        truncate_message(message.as_str())
    }
}

pub open spec fn check_kind_text(chat: bool) -> Seq<char> {
    if chat {
        "chat_completions_request"@
    } else {
        "responses_request"@
    }
}

/// The outcome of a connection test, from what curl reported: whether it exited
/// successfully, its exit status as text, its output and error output, and how
/// long it took. `credential` is the secret that was sent, hidden from the output.
pub fn probe_outcome(
    plan: &ProbePlan,
    exited_ok: bool,
    exit_status: &str,
    stdout: &str,
    stderr: &str,
    latency_ms: u128,
    credential: Option<&str>,
) -> (r: Result<ProviderTestResult, String>)
    ensures
        match r {
            Ok(result) => {
                &&& result.check_kind@ == check_kind_text(plan.chat)
                &&& result.provider_id@ == plan.provider_id@
                &&& result.model@ == plan.model@
                &&& opt_view(result.endpoint) == Some(plan.endpoint@)
                &&& result.latency_ms == latency_ms
                &&& if !exited_ok {
                    &&& !result.success
                    &&& result.http_status is None
                    &&& result.message@ == if trim_spec(stderr@).len() == 0 {
                        "curl 退出状态 "@ + exit_status@
                    } else {
                        truncated_message(trim_spec(stderr@))
                    }
                } else {
                    let out = match credential {
                        Some(c) => crate::sanitize::replace_all(stdout@, c@, "[REDACTED]"@),
                        None => stdout@,
                    };
                    let (response, status) = rsplit_once_text(out, status_marker())->Some_0;
                    &&& rsplit_once_text(out, status_marker()) is Some
                    &&& parsed_u16(trim_spec(status)) matches Some(code)
                    &&& result.http_status == Some(code)
                    &&& result.success == (200 <= code < 300)
                    &&& result.message@ == if result.success {
                        if plan.chat {
                            "真实 /chat/completions 请求成功；保存后 Codex 将通过本地兼容桥使用它。"@
                        } else {
                            "真实 /responses 请求成功；模型、地址和凭据已通过本次探测。"@
                        }
                    } else {
                        error_message_text(response)
                    }
                }
            },
            Err(e) => exited_ok && {
                let out = match credential {
                    Some(c) => crate::sanitize::replace_all(stdout@, c@, "[REDACTED]"@),
                    None => stdout@,
                };
                match rsplit_once_text(out, status_marker()) {
                    None => e@ == "Provider 返回中缺少 HTTP 状态。"@,
                    Some((_, status)) => parsed_u16(trim_spec(status)) is None && e@
                        == "Provider 返回了无效 HTTP 状态："@ + status,
                }
            },
        },
{
    let kind = if plan.chat {
        "chat_completions_request".to_owned()
    } else {
        "responses_request".to_owned()
    };
    if !exited_ok {
        let err = str_trim(stderr);
        let message = if err.is_empty() {
            let mut m = "curl 退出状态 ".to_owned();
            m.append(exit_status);
            m
        } else {
            truncate_message(err)
        };
        return Ok(
            ProviderTestResult {
                success: false,
                check_kind: kind,
                provider_id: plan.provider_id.clone(),
                model: plan.model.clone(),
                endpoint: Some(plan.endpoint.clone()),
                latency_ms,
                http_status: None,
                message,
            },
        );
    }
    let out = match credential {
        Some(c) => crate::sanitize::replace_text(stdout, c, "[REDACTED]"),
        None => stdout.to_owned(),
    };
    let (response, status) = match rsplit_once(out.as_str(), "\n__CODEX_XRAY_HTTP_STATUS__:") {
        Some(parts) => parts,
        None => {
            return Err("Provider 返回中缺少 HTTP 状态。".to_owned());
        },
    };
    let code = match parse_u16(str_trim(status.as_str())) {
        Some(code) => code,
        None => {
            let mut message = "Provider 返回了无效 HTTP 状态：".to_owned();
            message.append(status.as_str());
            return Err(message);
        },
    };
    let success = 200 <= code && code < 300;
    let message = if success {
        if plan.chat {
            "真实 /chat/completions 请求成功；保存后 Codex 将通过本地兼容桥使用它。".to_owned()
        } else {
            "真实 /responses 请求成功；模型、地址和凭据已通过本次探测。".to_owned()
        }
    } else {
        response_error_message(response.as_str())
    };
    Ok(
        ProviderTestResult {
            success,
            check_kind: kind,
            provider_id: plan.provider_id.clone(),
            model: plan.model.clone(),
            endpoint: Some(plan.endpoint.clone()),
            latency_ms,
            http_status: Some(code),
            message,
        },
    )
}

} // verus!
