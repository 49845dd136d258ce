//! What the library reads from Codex's App Server replies and session files.
use vstd::prelude::*;
use crate::json::{Json, JsonNumber, JsonValue, NumberModel};
use crate::text::str_eq;
use vstd::string::StringSliceAdditionalSpecFns;
use vstd::utf8::{decode_utf8, encode_utf8};

verus! {

broadcast use vstd::string::group_string_axioms;

/// Why a call into the Codex App Server failed.
#[derive(Debug)]
pub enum CodexError {
    CodexNotFound,
    StateDirectory(String),
    Spawn(String),
    MissingPipe(String),
    Send { method: String, message: String },
    Timeout { method: String, seconds: u64 },
    Rpc { method: String, message: String },
    InvalidResponse { method: String, message: String },
    Disconnected(String),
}

/// The signed-in account, without its e-mail address.
#[derive(Debug)]
pub struct AccountInfo {
    pub account_type: String,
    pub plan_type: Option<String>,
}

/// Credits attached to a rate limit.
#[derive(Debug)]
pub struct CreditsInfo {
    pub has_credits: bool,
    pub unlimited: bool,
    pub balance: Option<String>,
}

/// Lifetime usage figures.
#[derive(Debug)]
pub struct UsageSummary {
    pub lifetime_tokens: Option<u64>,
    pub peak_daily_tokens: Option<u64>,
    pub longest_running_turn_sec: Option<u64>,
    pub current_streak_days: Option<u64>,
    pub longest_streak_days: Option<u64>,
}

/// Tokens used on one day.
#[derive(Debug)]
pub struct DailyUsage {
    pub start_date: String,
    pub tokens: u64,
}

/// One Codex thread as the App Server and the session files describe it.
#[derive(Debug)]
pub struct ThreadMetadata {
    pub id: String,
    pub name: Option<String>,
    pub cwd: String,
    pub status: Option<String>,
    pub path: Option<String>,
    pub created_at: i64,
    pub updated_at: i64,
    pub parent_thread_id: Option<String>,
}

/// The method whose reply a parser reads, for error messages.
pub open spec fn invalid_response(e: CodexError, method: Seq<char>) -> bool {
    e matches CodexError::InvalidResponse { method: m, .. } && m@ == method
}

/// A thread's status as the UI names it: the App Server's wait flags win over
/// plain activity; idle and unloaded threads have none.
pub open spec fn thread_status_text(value: Json) -> Option<Seq<char>> {
    match value.str_at("type"@) {
        Some(kind) => if kind == "active"@ {
            let flags = match value.get("activeFlags"@) {
                Some(f) => match f.items() {
                    Some(items) => items,
                    None => Seq::empty(),
                },
                None => Seq::empty(),
            };
            if flags.contains(Json::Str("waitingOnApproval"@)) {
                Some("waiting_approval"@)
            } else if flags.contains(Json::Str("waitingOnUserInput"@)) {
                Some("waiting_input"@)
            } else {
                Some("running"@)
            }
        } else if kind == "systemError"@ {
            Some("failed"@)
        } else {
            None
        },
        None => None,
    }
}

fn contains_flag(items: &Vec<JsonValue>, flag: &str) -> (r: bool)
    ensures
        r == items@.map_values(|v: JsonValue| v@).contains(Json::Str(flag@)),
{
    let ghost model = items@.map_values(|v: JsonValue| v@);
    let mut i: usize = 0;
    while i < items.len()
        invariant
            i <= items@.len(),
            model == items@.map_values(|v: JsonValue| v@),
            forall|k: int| 0 <= k < i ==> model[k] != Json::Str(flag@),
        decreases items@.len() - i,
    {
        match items[i].as_str() {
            Some(s) => {
                if str_eq(s, flag) {
                    assert(model[i as int] == Json::Str(flag@));
                    return true;
                }
            },
            None => {},
        }
        i = i + 1;
    }
    false
}

/// Maps an App Server thread status object to the status the UI shows.
pub fn normalize_thread_status(value: &JsonValue) -> (r: Option<String>)
    ensures
        match r {
            Some(s) => thread_status_text(value@) == Some(s@),
            None => thread_status_text(value@) is None,
        },
{
    let kind = match value.str_at("type") {
        Some(kind) => kind,
        None => {
            return None;
        },
    };
    if str_eq(kind, "active") {
        let empty: Vec<JsonValue> = Vec::new();
        let flags = match value.get("activeFlags") {
            Some(f) => match f.as_array() {
                Some(items) => items,
                None => &empty,
            },
            None => &empty,
        };
        proof {
            let expected = match value@.get("activeFlags"@) {
                Some(f) => match f.items() {
                    Some(items) => items,
                    None => Seq::empty(),
                },
                None => Seq::empty(),
            };
            assert(flags@.map_values(|v: JsonValue| v@) == expected);
        }
        if contains_flag(flags, "waitingOnApproval") {
            Some("waiting_approval".to_owned())
        } else if contains_flag(flags, "waitingOnUserInput") {
            Some("waiting_input".to_owned())
        } else {
            Some("running".to_owned())
        }
    } else if str_eq(kind, "systemError") {
        Some("failed".to_owned())
    } else {
        None
    }
}

/// An optional string member: absent or `null` reads as `None`; any other kind
/// of value does not read (outer `None`).
pub open spec fn optional_string(v: Json, key: Seq<char>) -> Option<Option<Seq<char>>> {
    match v.get(key) {
        None => Some(None),
        Some(Json::Null) => Some(None),
        Some(Json::Str(s)) => Some(Some(s)),
        _ => None,
    }
}

/// An optional unsigned integer member, read the same way.
pub open spec fn optional_u64(v: Json, key: Seq<char>) -> Option<Option<u64>> {
    match v.get(key) {
        None => Some(None),
        Some(Json::Null) => Some(None),
        Some(Json::Number(NumberModel::Unsigned(n))) => Some(Some(n)),
        _ => None,
    }
}

pub(crate) fn read_optional_string(v: &JsonValue, key: &str) -> (r: Result<Option<String>, ()>)
    ensures
        match r {
            Ok(Some(s)) => optional_string(v@, key@) == Some(Some(s@)),
            Ok(None) => optional_string(v@, key@) == Some(None::<Seq<char>>),
            Err(_) => optional_string(v@, key@) is None,
        },
{
    match v.get(key) {
        None => Ok(None),
        Some(JsonValue::Null) => Ok(None),
        Some(JsonValue::String(s)) => Ok(Some(s.clone())),
        Some(_) => Err(()),
    }
}

pub(crate) fn read_optional_u64(v: &JsonValue, key: &str) -> (r: Result<Option<u64>, ()>)
    ensures
        match r {
            Ok(n) => optional_u64(v@, key@) == Some(n),
            Err(_) => optional_u64(v@, key@) is None,
        },
{
    match v.get(key) {
        None => Ok(None),
        Some(JsonValue::Null) => Ok(None),
        Some(JsonValue::Number(JsonNumber::Unsigned(n))) => Ok(Some(*n)),
        Some(_) => Err(()),
    }
}

/// The account in an `account/read` reply: `None` when signed out; an error
/// when the reply is not an object or the account has no string `type`.
pub open spec fn account_model(value: Json) -> Option<Option<(Seq<char>, Option<Seq<char>>)>> {
    if !value.is_object() {
        None
    } else {
        match value.get("account"@) {
            None => Some(None),
            Some(Json::Null) => Some(None),
            Some(account) => if !account.is_object() {
                None
            } else {
                match (account.str_at("type"@), optional_string(account, "planType"@)) {
                    (Some(kind), Some(plan)) => Some(Some((kind, plan))),
                    _ => None,
                }
            },
        }
    }
}

pub(crate) fn invalid(method: &str, message: &str) -> (e: CodexError)
    ensures
        invalid_response(e, method@),
{
    CodexError::InvalidResponse { method: method.to_owned(), message: message.to_owned() }
}

/// Reads the account type and plan from an `account/read` reply; the e-mail
/// address it also carries is never kept.
pub fn parse_account(value: &JsonValue) -> (r: Result<Option<AccountInfo>, CodexError>)
    ensures
        match r {
            Ok(None) => account_model(value@) == Some(None::<(Seq<char>, Option<Seq<char>>)>),
            Ok(Some(a)) => account_model(value@) == Some(
                Some((a.account_type@, crate::json::opt_string_view(a.plan_type))),
            ),
            Err(e) => account_model(value@) is None && invalid_response(e, "account/read"@),
        },
{
    if !value.is_object() {
        return Err(invalid("account/read", "回复不是对象"));
    }
    let account = match value.get("account") {
        None => {
            return Ok(None);
        },
        Some(JsonValue::Null) => {
            return Ok(None);
        },
        Some(account) => account,
    };
    if !account.is_object() {
        return Err(invalid("account/read", "account 不是对象"));
    }
    let kind = match account.str_at("type") {
        Some(kind) => kind,
        None => {
            return Err(invalid("account/read", "account.type 缺失或不是字符串"));
        },
    };
    let plan = match read_optional_string(account, "planType") {
        Ok(plan) => plan,
        Err(_) => {
            return Err(invalid("account/read", "account.planType 不是字符串"));
        },
    };
    Ok(Some(AccountInfo { account_type: kind.to_owned(), plan_type: plan }))
}

/// The summary in an `account/usage/read` reply (outer `None` when it does not read).
pub open spec fn summary_model(value: Json) -> Option<Option<UsageSummary>> {
    match value.get("summary"@) {
        None => Some(None),
        Some(Json::Null) => Some(None),
        Some(summary) => if !summary.is_object() {
            None
        } else {
            match (
                optional_u64(summary, "lifetimeTokens"@),
                optional_u64(summary, "peakDailyTokens"@),
                optional_u64(summary, "longestRunningTurnSec"@),
                optional_u64(summary, "currentStreakDays"@),
                optional_u64(summary, "longestStreakDays"@),
            ) {
                (Some(a), Some(b), Some(c), Some(d), Some(e)) => Some(
                    Some(
                        UsageSummary {
                            lifetime_tokens: a,
                            peak_daily_tokens: b,
                            longest_running_turn_sec: c,
                            current_streak_days: d,
                            longest_streak_days: e,
                        },
                    ),
                ),
                _ => None,
            }
        },
    }
}

/// One daily bucket: an object with a string `startDate` and unsigned `tokens`.
pub open spec fn bucket_model(item: Json) -> Option<(Seq<char>, u64)> {
    if !item.is_object() {
        None
    } else {
        match (item.str_at("startDate"@), item.get("tokens"@)) {
            (Some(date), Some(Json::Number(NumberModel::Unsigned(n)))) => Some((date, n)),
            _ => None,
        }
    }
}

/// The daily buckets, when every one of them reads.
pub open spec fn buckets_model(value: Json) -> Option<Seq<(Seq<char>, u64)>> {
    match value.get("dailyUsageBuckets"@) {
        None => Some(Seq::empty()),
        Some(Json::Null) => Some(Seq::empty()),
        Some(Json::Array(items)) => if forall|i: int|
            0 <= i < items.len() ==> (#[trigger] bucket_model(items[i])) is Some {
            Some(Seq::new(items.len(), |i: int| bucket_model(items[i]).unwrap()))
        } else {
            None
        },
        _ => None,
    }
}

pub open spec fn daily_view(v: Seq<DailyUsage>) -> Seq<(Seq<char>, u64)> {
    v.map_values(|d: DailyUsage| (d.start_date@, d.tokens))
}

fn read_summary(value: &JsonValue) -> (r: Result<Option<UsageSummary>, ()>)
    ensures
        match r {
            Ok(s) => summary_model(value@) == Some(s),
            Err(_) => summary_model(value@) is None,
        },
{
    let summary = match value.get("summary") {
        None => {
            return Ok(None);
        },
        Some(JsonValue::Null) => {
            return Ok(None);
        },
        Some(summary) => summary,
    };
    if !summary.is_object() {
        return Err(());
    }
    let a = read_optional_u64(summary, "lifetimeTokens")?;
    let b = read_optional_u64(summary, "peakDailyTokens")?;
    let c = read_optional_u64(summary, "longestRunningTurnSec")?;
    let d = read_optional_u64(summary, "currentStreakDays")?;
    let e = read_optional_u64(summary, "longestStreakDays")?;
    Ok(
        Some(
            UsageSummary {
                lifetime_tokens: a,
                peak_daily_tokens: b,
                longest_running_turn_sec: c,
                current_streak_days: d,
                longest_streak_days: e,
            },
        ),
    )
}

fn read_buckets(value: &JsonValue) -> (r: Result<Vec<DailyUsage>, ()>)
    ensures
        match r {
            Ok(v) => buckets_model(value@) == Some(daily_view(v@)),
            Err(_) => buckets_model(value@) is None,
        },
{
    let items = match value.get("dailyUsageBuckets") {
        None => {
            return Ok(Vec::new());
        },
        Some(JsonValue::Null) => {
            return Ok(Vec::new());
        },
        Some(JsonValue::Array(items)) => items,
        Some(_) => {
            return Err(());
        },
    };
    let ghost model = value@.get("dailyUsageBuckets"@).unwrap()->Array_0;
    assert(model.len() == items@.len());
    assert(forall|k: int| 0 <= k < items@.len() ==> #[trigger] model[k] == items@[k]@);
    let mut out: Vec<DailyUsage> = Vec::new();
    let mut i: usize = 0;
    while i < items.len()
        invariant
            i <= items@.len(),
            model.len() == items@.len(),
            value@.get("dailyUsageBuckets"@) == Some(Json::Array(model)),
            forall|k: int| 0 <= k < items@.len() ==> #[trigger] model[k] == items@[k]@,
            out@.len() == i,
            forall|k: int|
                0 <= k < i ==> bucket_model(#[trigger] model[k]) == Some(
                    (out@[k].start_date@, out@[k].tokens),
                ),
        decreases items@.len() - i,
    {
        let item = &items[i];
        assert(model[i as int] == item@);
        if !item.is_object() {
            assert(bucket_model(model[i as int]) is None);
            return Err(());
        }
        let date = match item.str_at("startDate") {
            Some(d) => d,
            None => {
                assert(bucket_model(model[i as int]) is None);
                return Err(());
            },
        };
        let tokens = match item.get("tokens") {
            Some(JsonValue::Number(JsonNumber::Unsigned(n))) => *n,
            _ => {
                assert(bucket_model(model[i as int]) is None);
                return Err(());
            },
        };
        out.push(DailyUsage { start_date: date.to_owned(), tokens });
        i = i + 1;
    }
    assert(daily_view(out@) == Seq::new(model.len(), |k: int| bucket_model(model[k]).unwrap()));
    Ok(out)
}

/// Reads the usage summary and the daily token buckets of an
/// `account/usage/read` reply; token counts keep their full 64 bits.
pub fn parse_usage(value: &JsonValue) -> (r: Result<(Option<UsageSummary>, Vec<DailyUsage>), CodexError>)
    ensures
        match r {
            Ok((summary, daily)) => value@.is_object() && summary_model(value@) == Some(summary)
                && buckets_model(value@) == Some(daily_view(daily@)),
            Err(e) => (!value@.is_object() || summary_model(value@) is None || buckets_model(
                value@,
            ) is None) && invalid_response(e, "account/usage/read"@),
        },
{
    if !value.is_object() {
        return Err(invalid("account/usage/read", "回复不是对象"));
    }
    let summary = match read_summary(value) {
        Ok(s) => s,
        Err(_) => {
            return Err(invalid("account/usage/read", "summary 格式不正确"));
        },
    };
    let daily = match read_buckets(value) {
        Ok(d) => d,
        Err(_) => {
            return Err(invalid("account/usage/read", "dailyUsageBuckets 格式不正确"));
        },
    };
    Ok((summary, daily))
}

pub open spec fn is_hex_byte(b: u8) -> bool {
    (48 <= b <= 57) || (65 <= b <= 70) || (97 <= b <= 102)
}

/// A session UUID: 36 bytes, dashes at 8, 13, 18 and 23, hex digits elsewhere.
pub open spec fn uuid_bytes(b: Seq<u8>) -> bool {
    b.len() == 36 && forall|i: int|
        0 <= i < 36 ==> if i == 8 || i == 13 || i == 18 || i == 23 {
            #[trigger] b[i] == 45
        } else {
            is_hex_byte(b[i])
        }
}

/// The session ID at the end of a session file's stem.
pub open spec fn session_id_of_stem(stem: Seq<char>) -> Option<Seq<char>> {
    let b = encode_utf8(stem);
    if b.len() >= 36 && uuid_bytes(b.subrange(b.len() - 36, b.len() as int)) {
        Some(decode_utf8(b.subrange(b.len() - 36, b.len() as int)))
    } else {
        None
    }
}

/// The session ID that ends a session file's name (`rollout-…-{uuid}.jsonl`).
pub fn session_id_from_path(path: &str) -> (r: Option<String>)
    ensures
        match r {
            Some(id) => crate::paths::file_stem_of(path@) matches Some(stem) && session_id_of_stem(
                stem,
            ) == Some(id@),
            None => match crate::paths::file_stem_of(path@) {
                Some(stem) => session_id_of_stem(stem) is None,
                None => true,
            },
        },
{
    broadcast use vstd::utf8::encode_utf8_valid_utf8;

    let stem = match crate::paths::file_stem(path) {
        Some(stem) => stem,
        None => {
            return None;
        },
    };
    let text = stem.as_str();
    let bytes = text.as_bytes();
    let n = bytes.len();
    if n < 36 {
        return None;
    }
    let start = n - 36;
    let mut i: usize = 0;
    while i < 36
        invariant
            i <= 36,
            n == bytes@.len(),
            start + 36 == n,
            bytes@ == text.spec_bytes(),
            crate::paths::file_stem_of(path@) == Some(text@),
            forall|k: int|
                0 <= k < i ==> if k == 8 || k == 13 || k == 18 || k == 23 {
                    #[trigger] bytes@[start + k] == 45
                } else {
                    is_hex_byte(bytes@[start + k])
                },
        decreases 36 - i,
    {
        let b = bytes[start + i];
        let ok = if i == 8 || i == 13 || i == 18 || i == 23 {
            b == 45
        } else {
            (48 <= b && b <= 57) || (65 <= b && b <= 70) || (97 <= b && b <= 102)
        };
        if !ok {
            proof {
                let tail = text.spec_bytes().subrange(start as int, n as int);
                assert(tail[i as int] == b);
                assert(!uuid_bytes(tail));
            }
            return None;
        }
        i = i + 1;
    }
    proof {
        let tail = text.spec_bytes().subrange(start as int, n as int);
        assert forall|k: int| 0 <= k < 36 implies if k == 8 || k == 13 || k == 18 || k == 23 {
            #[trigger] tail[k] == 45
        } else {
            is_hex_byte(tail[k])
        } by {
            assert(tail[k] == bytes@[start + k]);
        }
        assert(uuid_bytes(tail));
        assert(!vstd::utf8::is_continuation_byte(text.spec_bytes()[start as int]));
        vstd::utf8::is_char_boundary_iff_not_is_continuation_byte(text.spec_bytes(), start as int);
    }
    let (_, id) = text.split_at(start);
    proof {
        vstd::utf8::encode_utf8_decode_utf8(id@);
    }
    Some(id.to_owned())
}

} // verus!
