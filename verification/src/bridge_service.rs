//! What the local Chat bridge answers: the model list it offers Codex, the
//! credential it forwards, the request it sends upstream, and how it reacts
//! to the upstream reply.
use vstd::prelude::*;
use crate::chat_bridge::{chat_endpoint_text, provider_view, ChatBridgeProvider, ProviderModel};
use crate::json::{items_view, members_view, Json, JsonValue};
use crate::response_stream::{after_sending, empty_list, fail_step, finish_step, frames_of, num, reply_step, texts, ResponseStream};
use crate::responses::{chat_request, jstr, str_or};
use crate::text::{has_prefix, trim_spec};

verus! {

broadcast use vstd::string::group_string_axioms;

/// The smallest context window the bridge reports for a model.
pub const MIN_CONTEXT_WINDOW: u64 = 8_192;

pub open spec fn error_body(message: Seq<char>) -> Json {
    Json::Object(
        seq![("error"@, Json::Object(seq![("message"@, jstr(message)), ("type"@, jstr("codex_xray_chat_bridge_error"@))]))],
    )
}

pub open spec fn reasoning_level(effort: Seq<char>, description: Seq<char>) -> Json {
    Json::Object(seq![("effort"@, jstr(effort)), ("description"@, jstr(description))])
}

/// What the bridge tells Codex about a provider's model.
pub open spec fn model_info(model: Seq<char>, context_window: u64) -> Json {
    let window = if context_window > MIN_CONTEXT_WINDOW {
        context_window
    } else {
        MIN_CONTEXT_WINDOW
    };
    Json::Object(
        seq![
            ("slug"@, jstr(model)),
            ("display_name"@, jstr(model)),
            ("description"@, jstr("Chat Completions via Codex X-Ray"@)),
            ("default_reasoning_level"@, jstr("medium"@)),
            ("supported_reasoning_levels"@, Json::Array(seq![
                reasoning_level("low"@, "Faster responses with lighter reasoning"@),
                reasoning_level("medium"@, "Balanced reasoning"@),
                reasoning_level("high"@, "More reasoning for complex work"@),
            ])),
            ("shell_type"@, jstr("shell_command"@)),
            ("visibility"@, jstr("list"@)),
            ("supported_in_api"@, Json::Bool(true)),
            ("priority"@, num(1)),
            ("additional_speed_tiers"@, empty_list()),
            ("service_tiers"@, empty_list()),
            ("default_service_tier"@, Json::Null),
            ("availability_nux"@, Json::Null),
            ("upgrade"@, Json::Null),
            ("base_instructions"@, jstr(base_instructions())),
            ("model_messages"@, Json::Null),
            ("include_skills_usage_instructions"@, Json::Bool(true)),
            ("default_reasoning_summary"@, jstr("none"@)),
            ("support_verbosity"@, Json::Bool(false)),
            ("default_verbosity"@, Json::Null),
            ("apply_patch_tool_type"@, Json::Null),
            ("web_search_tool_type"@, jstr("text"@)),
            ("truncation_policy"@, Json::Object(seq![("mode"@, jstr("tokens"@)), ("limit"@, num(10_000))])),
            ("supports_parallel_tool_calls"@, Json::Bool(true)),
            ("supports_image_detail_original"@, Json::Bool(false)),
            ("context_window"@, num(window)),
            ("max_context_window"@, num(window)),
            ("comp_hash"@, Json::Null),
            ("effective_context_window_percent"@, num(95)),
            ("experimental_supported_tools"@, empty_list()),
            ("input_modalities"@, Json::Array(seq![jstr("text"@)])),
            ("supports_search_tool"@, Json::Bool(false)),
            ("use_responses_lite"@, Json::Bool(false)),
            ("tool_mode"@, jstr("direct"@)),
            ("multi_agent_version"@, Json::Null),
        ],
    )
}

pub open spec fn base_instructions() -> Seq<char> {
    "You are Codex, an agentic coding assistant. Work carefully, use the provided tools when needed, and give concise, accurate answers."@
}

fn put(members: &mut Vec<(String, JsonValue)>, key: &str, value: JsonValue)
    ensures
        members_view(final(members)@) == members_view(old(members)@).push((key@, value@)),
{
    let ghost v = value@;
    members.push((key.to_owned(), value));
    assert(members_view(members@) =~= members_view(old(members)@).push((key@, v)));
}

fn text(s: &str) -> (r: JsonValue)
    ensures
        r@ == jstr(s@),
{
    JsonValue::String(s.to_owned())
}

fn number(n: u64) -> (r: JsonValue)
    ensures
        r@ == num(n),
{
    JsonValue::Number(crate::json::JsonNumber::Unsigned(n))
}

fn no_items() -> (r: JsonValue)
    ensures
        r@ == empty_list(),
{
    let items: Vec<JsonValue> = Vec::new();
    assert(items_view(items@) =~= Seq::<Json>::empty());
    JsonValue::array(items)
}

fn level(effort: &str, description: &str) -> (r: JsonValue)
    ensures
        r@ == reasoning_level(effort@, description@),
{
    let mut m: Vec<(String, JsonValue)> = Vec::new();
    put(&mut m, "effort", text(effort));
    put(&mut m, "description", text(description));
    assert(members_view(m@) =~= reasoning_level(effort@, description@)->Object_0);
    JsonValue::object(m)
}

/// The error body the bridge answers with.
pub fn bridge_error_body(message: &str) -> (r: JsonValue)
    ensures
        r@ == error_body(message@),
{
    let mut inner: Vec<(String, JsonValue)> = Vec::new();
    put(&mut inner, "message", text(message));
    put(&mut inner, "type", text("codex_xray_chat_bridge_error"));
    assert(members_view(inner@) =~= seq![("message"@, jstr(message@)), ("type"@, jstr("codex_xray_chat_bridge_error"@))]);
    let r = JsonValue::single_member("error", JsonValue::object(inner));
    r
}

/// What the bridge tells Codex about a provider's model.
pub fn bridge_model_info(provider: &ChatBridgeProvider) -> (r: JsonValue)
    ensures
        r@ == model_info(provider.model@, provider.context_window),
{
    let window = if provider.context_window > MIN_CONTEXT_WINDOW {
        provider.context_window
    } else {
        MIN_CONTEXT_WINDOW
    };
    let mut levels: Vec<JsonValue> = Vec::new();
    levels.push(level("low", "Faster responses with lighter reasoning"));
    levels.push(level("medium", "Balanced reasoning"));
    levels.push(level("high", "More reasoning for complex work"));
    assert(items_view(levels@) =~= seq![
        reasoning_level("low"@, "Faster responses with lighter reasoning"@),
        reasoning_level("medium"@, "Balanced reasoning"@),
        reasoning_level("high"@, "More reasoning for complex work"@),
    ]);
    let mut truncation: Vec<(String, JsonValue)> = Vec::new();
    put(&mut truncation, "mode", text("tokens"));
    put(&mut truncation, "limit", number(10_000));
    assert(members_view(truncation@) =~= seq![("mode"@, jstr("tokens"@)), ("limit"@, num(10_000))]);
    let mut modalities: Vec<JsonValue> = Vec::new();
    modalities.push(text("text"));
    assert(items_view(modalities@) =~= seq![jstr("text"@)]);
    let model = provider.model.as_str();
    let mut m: Vec<(String, JsonValue)> = Vec::new();
    put(&mut m, "slug", text(model));
    put(&mut m, "display_name", text(model));
    put(&mut m, "description", text("Chat Completions via Codex X-Ray"));
    put(&mut m, "default_reasoning_level", text("medium"));
    put(&mut m, "supported_reasoning_levels", JsonValue::array(levels));
    put(&mut m, "shell_type", text("shell_command"));
    put(&mut m, "visibility", text("list"));
    put(&mut m, "supported_in_api", JsonValue::Bool(true));
    put(&mut m, "priority", number(1));
    put(&mut m, "additional_speed_tiers", no_items());
    put(&mut m, "service_tiers", no_items());
    put(&mut m, "default_service_tier", JsonValue::Null);
    put(&mut m, "availability_nux", JsonValue::Null);
    put(&mut m, "upgrade", JsonValue::Null);
    put(
        &mut m,
        "base_instructions",
        text(
            "You are Codex, an agentic coding assistant. Work carefully, use the provided tools when needed, and give concise, accurate answers.",
        ),
    );
    put(&mut m, "model_messages", JsonValue::Null);
    put(&mut m, "include_skills_usage_instructions", JsonValue::Bool(true));
    put(&mut m, "default_reasoning_summary", text("none"));
    put(&mut m, "support_verbosity", JsonValue::Bool(false));
    put(&mut m, "default_verbosity", JsonValue::Null);
    put(&mut m, "apply_patch_tool_type", JsonValue::Null);
    put(&mut m, "web_search_tool_type", text("text"));
    put(&mut m, "truncation_policy", JsonValue::object(truncation));
    put(&mut m, "supports_parallel_tool_calls", JsonValue::Bool(true));
    put(&mut m, "supports_image_detail_original", JsonValue::Bool(false));
    put(&mut m, "context_window", number(window));
    put(&mut m, "max_context_window", number(window));
    put(&mut m, "comp_hash", JsonValue::Null);
    put(&mut m, "effective_context_window_percent", number(95));
    put(&mut m, "experimental_supported_tools", no_items());
    put(&mut m, "input_modalities", JsonValue::array(modalities));
    put(&mut m, "supports_search_tool", JsonValue::Bool(false));
    put(&mut m, "use_responses_lite", JsonValue::Bool(false));
    put(&mut m, "tool_mode", text("direct"));
    put(&mut m, "multi_agent_version", JsonValue::Null);
    assert(members_view(m@) =~= model_info(provider.model@, provider.context_window)->Object_0);
    JsonValue::object(m)
}

/// A reply of the bridge: an HTTP status and a JSON body.
#[derive(Debug)]
pub struct BridgeReply {
    pub status: u16,
    pub body: JsonValue,
}

pub open spec fn missing_provider_message(provider_id: Seq<char>) -> Seq<char> {
    "Chat 兼容桥中没有 Provider "@ + provider_id + "。"@
}

pub open spec fn missing_model_id_message(provider_id: Seq<char>) -> Seq<char> {
    "Chat Provider "@ + provider_id + " 没有配置模型 ID。"@
}

/// The model list for a provider: 404 when the bridge does not serve it,
/// 422 when it names no model, else its one model.
pub open spec fn models_reply_spec(provider_id: Seq<char>, provider: Option<ProviderModel>) -> (u16, Json) {
    match provider {
        None => (404, error_body(missing_provider_message(provider_id))),
        Some(p) => if trim_spec(p.3).len() == 0 {
            (422, error_body(missing_model_id_message(provider_id)))
        } else {
            (200, Json::Object(seq![("models"@, Json::Array(seq![model_info(p.3, p.4)]))]))
        },
    }
}

pub open spec fn opt_provider_view(p: Option<&ChatBridgeProvider>) -> Option<ProviderModel> {
    match p {
        Some(x) => Some(provider_view(*x)),
        None => None,
    }
}

fn two_part_message(head: &str, middle: &str, tail: &str) -> (r: String)
    ensures
        r@ == head@ + middle@ + tail@,
{
    let a = crate::text::concat(head, middle);
    crate::text::concat(a.as_str(), tail)
}

/// The model list the bridge offers for `provider_id`.
pub fn models_reply(provider_id: &str, provider: Option<&ChatBridgeProvider>) -> (r: BridgeReply)
    ensures
        (r.status, r.body@) == models_reply_spec(provider_id@, opt_provider_view(provider)),
{
    match provider {
        None => {
            let message = two_part_message("Chat 兼容桥中没有 Provider ", provider_id, "。");
            BridgeReply { status: 404, body: bridge_error_body(message.as_str()) }
        },
        Some(p) => if crate::text::str_trim(p.model.as_str()).is_empty() {
            let message = two_part_message("Chat Provider ", provider_id, " 没有配置模型 ID。");
            BridgeReply { status: 422, body: bridge_error_body(message.as_str()) }
        } else {
            let mut models: Vec<JsonValue> = Vec::new();
            models.push(bridge_model_info(p));
            let ghost info = models@[0]@;
            let list = JsonValue::array(models);
            assert(items_view(models@) =~= seq![info]);
            BridgeReply { status: 200, body: JsonValue::single_member("models", list) }
        },
    }
}


/// The token of an `Authorization: Bearer` header.
pub open spec fn bearer_token(authorization: Option<Seq<char>>) -> Option<Seq<char>> {
    match authorization {
        Some(a) => if has_prefix(a, "Bearer "@) {
            Some(a.subrange(7, a.len() as int))
        } else {
            None
        },
        None => None,
    }
}

pub open spec fn keychain_mismatch_message() -> Seq<char> {
    "本地兼容桥认证失败，请重新保存这个 Provider 的 API Key。"@
}

pub open spec fn env_mismatch_message(env_key: Seq<char>) -> Seq<char> {
    "本地兼容桥没有收到与 "@ + env_key + " 匹配的认证信息。"@
}

pub open spec fn unsupported_mode_message(mode: Seq<char>) -> Seq<char> {
    "Chat 兼容桥不支持凭据方式 "@ + mode + "。"@
}

/// The credential forwarded upstream. With the keychain, Codex must present
/// the stored key, which is forwarded; with an environment variable that is
/// set (not blank), Codex must present its value, which is forwarded, and
/// otherwise whatever Codex presented is; with `none`, nothing is. `stored`
/// is what the keychain gave, `env_value` the variable's value.
pub open spec fn credential_outcome(
    p: ProviderModel,
    inbound: Option<Seq<char>>,
    env_value: Option<Seq<char>>,
    stored: Result<Seq<char>, Seq<char>>,
) -> Result<Option<Seq<char>>, Seq<char>> {
    let mode = p.1;
    if mode == "keychain"@ {
        match stored {
            Err(e) => Err(e),
            Ok(c) => if inbound != Some(c) {
                Err(keychain_mismatch_message())
            } else {
                Ok(Some(c))
            },
        }
    } else if mode == "environment"@ {
        match (p.2, env_value) {
            (Some(k), Some(v)) => if trim_spec(v).len() != 0 {
                if inbound != Some(v) {
                    Err(env_mismatch_message(k))
                } else {
                    Ok(Some(v))
                }
            } else {
                inbound_outcome(inbound)
            },
            _ => inbound_outcome(inbound),
        }
    } else if mode == "none"@ {
        Ok(None)
    } else {
        Err(unsupported_mode_message(mode))
    }
}

pub open spec fn inbound_outcome(inbound: Option<Seq<char>>) -> Result<Option<Seq<char>>, Seq<char>> {
    Ok(inbound)
}

pub open spec fn opt_str(v: Option<&str>) -> Option<Seq<char>> {
    match v {
        Some(x) => Some(x@),
        None => None,
    }
}

pub open spec fn result_view(r: Result<String, String>) -> Result<Seq<char>, Seq<char>> {
    match r {
        Ok(v) => Ok(v@),
        Err(e) => Err(e@),
    }
}

pub open spec fn outcome_view(r: Result<Option<String>, String>) -> Result<Option<Seq<char>>, Seq<char>> {
    match r {
        Ok(Some(v)) => Ok(Some(v@)),
        Ok(None) => Ok(None),
        Err(e) => Err(e@),
    }
}

/// The token of an `Authorization` header value, when it is a bearer token.
pub fn bearer(authorization: Option<&str>) -> (r: Option<String>)
    ensures
        match r {
            Some(t) => bearer_token(opt_str(authorization)) == Some(t@),
            None => bearer_token(opt_str(authorization)) is None,
        },
{
    match authorization {
        Some(a) => if crate::text::str_starts_with(a, "Bearer ") {
            proof {
                reveal_strlit("Bearer ");
            }
            let chars = crate::text::chars_of(a);
            Some(crate::text::string_of_range(chars.as_slice(), 7, chars.len()))
        } else {
            None
        },
        None => None,
    }
}

fn same_opt(a: &Option<String>, b: &str) -> (r: bool)
    ensures
        r == (match a {
            Some(x) => Some(x@),
            None => None::<Seq<char>>,
        } == Some(b@)),
{
    match a {
        Some(x) => crate::text::str_eq(x.as_str(), b),
        None => false,
    }
}

/// The credential forwarded upstream, given what the keychain returned.
pub fn authorize_with(
    provider: &ChatBridgeProvider,
    authorization: Option<&str>,
    env_value: Option<&str>,
    stored: Result<String, String>,
) -> (r: Result<Option<String>, String>)
    ensures
        outcome_view(r) == credential_outcome(
            provider_view(*provider),
            bearer_token(opt_str(authorization)),
            opt_str(env_value),
            result_view(stored),
        ),
{
    let inbound = bearer(authorization);
    let mode = provider.credential_mode.as_str();
    if crate::text::str_eq(mode, "keychain") {
        match stored {
            Err(e) => Err(e),
            Ok(c) => if !same_opt(&inbound, c.as_str()) {
                Err(crate::text::owned("本地兼容桥认证失败，请重新保存这个 Provider 的 API Key。"))
            } else {
                Ok(Some(c))
            },
        }
    } else if crate::text::str_eq(mode, "environment") {
        match (&provider.env_key, env_value) {
            (Some(k), Some(v)) => if !crate::text::str_trim(v).is_empty() {
                if !same_opt(&inbound, v) {
                    Err(two_part_message("本地兼容桥没有收到与 ", k.as_str(), " 匹配的认证信息。"))
                } else {
                    Ok(Some(v.to_owned()))
                }
            } else {
                Ok(inbound)
            },
            _ => Ok(inbound),
        }
    } else if crate::text::str_eq(mode, "none") {
        Ok(None)
    } else {
        Err(two_part_message("Chat 兼容桥不支持凭据方式 ", mode, "。"))
    }
}

/// The credential forwarded upstream. Only the keychain mode reads the
/// keychain; whatever it returns, a forwarded key is one Codex presented.
pub fn bridge_credential(
    provider_id: &str,
    provider: &ChatBridgeProvider,
    authorization: Option<&str>,
    env_value: Option<&str>,
) -> (r: Result<Option<String>, String>)
    ensures
        provider.credential_mode@ != "keychain"@ ==> outcome_view(r) == credential_outcome(
            provider_view(*provider),
            bearer_token(opt_str(authorization)),
            opt_str(env_value),
            Err(Seq::empty()),
        ),
        provider.credential_mode@ == "keychain"@ ==> exists|stored: Result<Seq<char>, Seq<char>>|
            #[trigger] credential_outcome(
                provider_view(*provider),
                bearer_token(opt_str(authorization)),
                opt_str(env_value),
                stored,
            ) == outcome_view(r),
        r matches Ok(Some(c)) ==> provider.credential_mode@ == "none"@ || bearer_token(opt_str(authorization)) == Some(c@),
{
    let stored = if crate::text::str_eq(provider.credential_mode.as_str(), "keychain") {
        crate::provider::read_credential(provider_id)
    } else {
        Err(String::new())
    };
    authorize_with(provider, authorization, env_value, stored)
}

/// The request the bridge sends upstream for a Responses request: the
/// provider's Chat endpoint and the converted body; 404 for a provider the
/// bridge does not serve, 400 for a request it cannot convert.
pub open spec fn upstream_plan(provider_id: Seq<char>, provider: Option<ProviderModel>, request: Json) -> Result<
    (Seq<char>, Json),
    (u16, Json),
> {
    match provider {
        None => Err((404, error_body(missing_provider_message(provider_id)))),
        Some(p) => match chat_request(request) {
            Err(e) => Err((400, error_body(e))),
            Ok(c) => Ok((chat_endpoint_text(p.0), c)),
        },
    }
}

/// The upstream endpoint and body for a Responses request, or the reply
/// that refuses it.
pub fn plan_upstream(provider_id: &str, provider: Option<&ChatBridgeProvider>, request: &JsonValue) -> (r: Result<
    (String, JsonValue),
    BridgeReply,
>)
    ensures
        match r {
            Ok((endpoint, body)) => upstream_plan(provider_id@, opt_provider_view(provider), request@) == Ok::<
                (Seq<char>, Json),
                (u16, Json),
            >((endpoint@, body@)),
            Err(reply) => upstream_plan(provider_id@, opt_provider_view(provider), request@) == Err::<
                (Seq<char>, Json),
                (u16, Json),
            >((reply.status, reply.body@)),
        },
{
    match provider {
        None => {
            let message = two_part_message("Chat 兼容桥中没有 Provider ", provider_id, "。");
            Err(BridgeReply { status: 404, body: bridge_error_body(message.as_str()) })
        },
        Some(p) => match crate::responses::responses_to_chat(request) {
            Err(e) => Err(BridgeReply { status: 400, body: bridge_error_body(e.as_str()) }),
            Ok(body) => Ok((crate::chat_bridge::chat_endpoint(p.upstream_base_url.as_str()), body)),
        },
    }
}

/// The reply when the upstream cannot be reached.
pub fn unreachable_reply(error: &str) -> (r: BridgeReply)
    ensures
        r.status == 502,
        r.body@ == error_body("Chat 上游连接失败："@ + error@),
{
    let message = crate::text::concat("Chat 上游连接失败：", error);
    BridgeReply { status: 502, body: bridge_error_body(message.as_str()) }
}

/// The reply when a whole upstream reply is not JSON.
pub fn unreadable_reply(error: &str) -> (r: BridgeReply)
    ensures
        r.status == 502,
        r.body@ == error_body("Chat 上游没有返回有效 JSON："@ + error@),
{
    let message = crate::text::concat("Chat 上游没有返回有效 JSON：", error);
    BridgeReply { status: 502, body: bridge_error_body(message.as_str()) }
}

/// The reply when the inbound credential does not pass.
pub fn unauthorized_reply(message: &str) -> (r: BridgeReply)
    ensures
        r.status == 401,
        r.body@ == error_body(message@),
{
    BridgeReply { status: 401, body: bridge_error_body(message) }
}

/// The model the events name until the upstream names one.
pub fn stream_model(request: &JsonValue) -> (r: String)
    ensures
        r@ == str_or(request@.str_at("model"@), "chat-model"@),
{
    match request.str_at("model") {
        Some(m) => crate::text::owned(m),
        None => crate::text::owned("chat-model"),
    }
}

/// The upstream answered with server-sent events.
pub fn is_event_stream(content_type: &str) -> (r: bool)
    ensures
        r == crate::text::has_infix(crate::text::ascii_lower(content_type@), "text/event-stream"@),
{
    let lower = crate::text::str_ascii_lowercase(content_type);
    crate::text::str_contains(lower.as_str(), "text/event-stream")
}

pub open spec fn done_marker(data: Seq<char>) -> bool {
    trim_spec(data) == "[DONE]"@
}

impl ResponseStream {
    /// One upstream event: `[DONE]` ends the reply; other data is a chunk,
    /// or, when it could not be read as JSON (`parsed` holds why), ends the
    /// reply with a failure. Says whether the reply has ended.
    pub fn upstream_data(&mut self, data: &str, parsed: Result<JsonValue, String>) -> (r: (Vec<String>, bool))
        ensures
            done_marker(data@) ==> ({
                let (s2, ev) = finish_step(old(self)@);
                &&& final(self)@ == after_sending(s2, ev)
                &&& texts(r.0@) == frames_of(ev, old(self).sequence)
                &&& r.1
            }),
            !done_marker(data@) ==> match parsed {
                Ok(chunk) => {
                    let (s2, ev) = reply_step(old(self)@, chunk@, "delta"@, false);
                    &&& final(self)@ == after_sending(s2, ev)
                    &&& texts(r.0@) == frames_of(ev, old(self).sequence)
                    &&& !r.1
                },
                Err(e) => {
                    let (s2, ev) = fail_step(old(self)@, "Chat 流事件无法解析："@ + e@);
                    &&& final(self)@ == after_sending(s2, ev)
                    &&& texts(r.0@) == frames_of(ev, old(self).sequence)
                    &&& r.1
                },
            },
    {
        if crate::text::str_eq(crate::text::str_trim(data), "[DONE]") {
            (self.finish(), true)
        } else {
            match parsed {
                Ok(chunk) => (self.consume_chat_chunk(&chunk), false),
                Err(e) => {
                    let message = crate::text::concat("Chat 流事件无法解析：", e.as_str());
                    (self.fail(message), true)
                },
            }
        }
    }

    /// The upstream stream broke off.
    pub fn upstream_broken(&mut self, error: &str) -> (r: Vec<String>)
        ensures
            ({
                let (s2, ev) = fail_step(old(self)@, "Chat 流已中断："@ + error@);
                &&& final(self)@ == after_sending(s2, ev)
                &&& texts(r@) == frames_of(ev, old(self).sequence)
            }),
    {
        let message = crate::text::concat("Chat 流已中断：", error);
        self.fail(message)
    }
}

} // verus!
