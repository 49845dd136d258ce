//! The rate limits in an `account/rateLimits/read` reply of the Codex App
//! Server: every bucket, keyed by limit ID, with the bucket the reply calls
//! current listed first and the others in order of ID.
use vstd::prelude::*;
use crate::assoc::{assoc_view, has_key, keys_ascending, lemma_assoc_empty, lemma_assoc_insert, lemma_assoc_set, lemma_key_unique, lemma_value_at, locate};
use crate::codex::{
    invalid, invalid_response, optional_string, optional_u64, read_optional_string, read_optional_u64, CodexError,
    CreditsInfo,
};
use crate::json::{opt_string_view, Json, JsonNumber, JsonValue, NumberModel};
use crate::pricing::text_lt;

verus! {

broadcast use vstd::string::group_string_axioms;

/// A usage window of a rate limit. The share used is a JSON number as sent
/// (the desktop UI reads it as a float).
#[derive(Debug)]
pub struct RateLimitWindow {
    pub used_percent: JsonNumber,
    pub window_duration_mins: Option<u64>,
    pub resets_at: Option<i64>,
}

/// One rate-limit bucket.
#[derive(Debug)]
pub struct RateLimit {
    pub limit_id: String,
    pub limit_name: Option<String>,
    pub plan_type: Option<String>,
    pub primary: Option<RateLimitWindow>,
    pub secondary: Option<RateLimitWindow>,
    pub credits: Option<CreditsInfo>,
    pub spend_control_reached: Option<bool>,
    pub rate_limit_reached_type: Option<String>,
}

pub struct WindowModel {
    pub used_percent: NumberModel,
    pub window_duration_mins: Option<u64>,
    pub resets_at: Option<i64>,
}

pub struct CreditsModel {
    pub has_credits: bool,
    pub unlimited: bool,
    pub balance: Option<Seq<char>>,
}

pub struct LimitModel {
    pub limit_id: Seq<char>,
    pub limit_name: Option<Seq<char>>,
    pub plan_type: Option<Seq<char>>,
    pub primary: Option<WindowModel>,
    pub secondary: Option<WindowModel>,
    pub credits: Option<CreditsModel>,
    pub spend_control_reached: Option<bool>,
    pub rate_limit_reached_type: Option<Seq<char>>,
}

pub open spec fn window_view(w: RateLimitWindow) -> WindowModel {
    WindowModel { used_percent: w.used_percent@, window_duration_mins: w.window_duration_mins, resets_at: w.resets_at }
}

pub open spec fn opt_window_view(w: Option<RateLimitWindow>) -> Option<WindowModel> {
    match w {
        Some(x) => Some(window_view(x)),
        None => None,
    }
}

pub open spec fn opt_credits_view(c: Option<CreditsInfo>) -> Option<CreditsModel> {
    match c {
        Some(x) => Some(CreditsModel { has_credits: x.has_credits, unlimited: x.unlimited, balance: opt_string_view(x.balance) }),
        None => None,
    }
}

pub open spec fn limit_view(r: RateLimit) -> LimitModel {
    LimitModel {
        limit_id: r.limit_id@,
        limit_name: opt_string_view(r.limit_name),
        plan_type: opt_string_view(r.plan_type),
        primary: opt_window_view(r.primary),
        secondary: opt_window_view(r.secondary),
        credits: opt_credits_view(r.credits),
        spend_control_reached: r.spend_control_reached,
        rate_limit_reached_type: opt_string_view(r.rate_limit_reached_type),
    }
}

/// An optional signed integer member: absent or `null` reads as `None`; an
/// integer in `i64` range as `Some`; anything else does not read.
pub open spec fn optional_i64(v: Json, key: Seq<char>) -> Option<Option<i64>> {
    match v.get(key) {
        None => Some(None),
        Some(Json::Null) => Some(None),
        Some(Json::Number(NumberModel::Unsigned(n))) => if n <= i64::MAX {
            Some(Some(n as i64))
        } else {
            None
        },
        Some(Json::Number(NumberModel::Negative(n))) => Some(Some(n)),
        _ => None,
    }
}

/// An optional boolean member, read the same way.
pub open spec fn optional_bool(v: Json, key: Seq<char>) -> Option<Option<bool>> {
    match v.get(key) {
        None => Some(None),
        Some(Json::Null) => Some(None),
        Some(Json::Bool(b)) => Some(Some(b)),
        _ => None,
    }
}

/// A window member: absent or `null` is none; an object needs a number
/// `usedPercent` and may carry `windowDurationMins` and `resetsAt`.
pub open spec fn window_model(v: Json, key: Seq<char>) -> Option<Option<WindowModel>> {
    match v.get(key) {
        None => Some(None),
        Some(Json::Null) => Some(None),
        Some(w) => if !w.is_object() {
            None
        } else {
            match (w.get("usedPercent"@), optional_u64(w, "windowDurationMins"@), optional_i64(w, "resetsAt"@)) {
                (Some(Json::Number(p)), Some(mins), Some(resets)) => Some(
                    Some(WindowModel { used_percent: p, window_duration_mins: mins, resets_at: resets }),
                ),
                _ => None,
            }
        },
    }
}

/// A credits member: absent or `null` is none; an object needs the booleans
/// `hasCredits` and `unlimited` and may carry a string `balance`.
pub open spec fn credits_model(v: Json) -> Option<Option<CreditsModel>> {
    match v.get("credits"@) {
        None => Some(None),
        Some(Json::Null) => Some(None),
        Some(c) => if !c.is_object() {
            None
        } else {
            match (c.get("hasCredits"@), c.get("unlimited"@), optional_string(c, "balance"@)) {
                (Some(Json::Bool(h)), Some(Json::Bool(u)), Some(b)) => Some(
                    Some(CreditsModel { has_credits: h, unlimited: u, balance: b }),
                ),
                _ => None,
            }
        },
    }
}

/// A bucket as the reply sends it: its own limit ID, if any, and its fields
/// (with an empty limit ID), or `None` when it does not read.
pub open spec fn raw_model(v: Json) -> Option<(Option<Seq<char>>, LimitModel)> {
    if !v.is_object() {
        None
    } else {
        match (
            optional_string(v, "limitId"@),
            optional_string(v, "limitName"@),
            optional_string(v, "planType"@),
            window_model(v, "primary"@),
            window_model(v, "secondary"@),
            credits_model(v),
            optional_bool(v, "spendControlReached"@),
            optional_string(v, "rateLimitReachedType"@),
        ) {
            (Some(id), Some(name), Some(plan), Some(primary), Some(secondary), Some(credits), Some(spend), Some(reached)) => Some(
                (
                    id,
                    LimitModel {
                        limit_id: Seq::empty(),
                        limit_name: name,
                        plan_type: plan,
                        primary,
                        secondary,
                        credits,
                        spend_control_reached: spend,
                        rate_limit_reached_type: reached,
                    },
                ),
            ),
            _ => None,
        }
    }
}

/// A bucket under `key`: its own limit ID wins over the key.
pub open spec fn normalized(raw: (Option<Seq<char>>, LimitModel), key: Seq<char>) -> LimitModel {
    LimitModel {
        limit_id: match raw.0 {
            Some(id) => id,
            None => key,
        },
        ..raw.1
    }
}

/// The buckets of the first `n` members of `rateLimitsByLimitId`, by key.
pub open spec fn buckets_model(members: Seq<(Seq<char>, Json)>, n: nat) -> Option<Map<Seq<char>, LimitModel>>
    decreases n,
{
    if n == 0 {
        Some(Map::empty())
    } else {
        match (buckets_model(members, (n - 1) as nat), raw_model(members[n - 1].1)) {
            (Some(m), Some(raw)) => Some(m.insert(members[n - 1].0, normalized(raw, members[n - 1].0))),
            _ => None,
        }
    }
}

proof fn lemma_buckets_none_stays(members: Seq<(Seq<char>, Json)>, n: nat, m: nat)
    requires
        n <= m,
        buckets_model(members, n) is None,
    ensures
        buckets_model(members, m) is None,
    decreases m - n,
{
    if m > n {
        lemma_buckets_none_stays(members, n, (m - 1) as nat);
    }
}

/// The buckets listed under `rateLimitsByLimitId`, if it reads.
pub open spec fn by_id_model(value: Json) -> Option<Map<Seq<char>, LimitModel>> {
    match value.get("rateLimitsByLimitId"@) {
        None => Some(Map::empty()),
        Some(Json::Null) => Some(Map::empty()),
        Some(Json::Object(members)) => buckets_model(members, members.len()),
        _ => None,
    }
}

/// The current limit ID and every bucket by key: those listed by ID, and the
/// reply's own `rateLimits` under its limit ID (`codex` when it has none)
/// unless a listed bucket has that key. `None` when the reply does not read.
pub open spec fn rate_limits_model(value: Json) -> Option<(Option<Seq<char>>, Map<Seq<char>, LimitModel>)> {
    if !value.is_object() {
        None
    } else {
        match value.get("rateLimits"@) {
            None => None,
            Some(main) => match (raw_model(main), by_id_model(value)) {
                (Some(raw), Some(m)) => {
                    let fallback = match raw.0 {
                        Some(id) => id,
                        None => "codex"@,
                    };
                    Some(
                        (
                            raw.0,
                            if m.contains_key(fallback) {
                                m
                            } else {
                                m.insert(fallback, normalized(raw, fallback))
                            },
                        ),
                    )
                },
                _ => None,
            },
        }
    }
}

pub open spec fn rows_view(l: Seq<(String, RateLimit)>) -> Seq<LimitModel> {
    l.map_values(|p: (String, RateLimit)| limit_view(p.1))
}

pub open spec fn keyed_view(l: Seq<(String, RateLimit)>) -> Map<Seq<char>, LimitModel> {
    assoc_view(l).map_values(|r: RateLimit| limit_view(r))
}

/// The buckets of an ascending list as listed: the current one first when it
/// is there, then the others in order of key.
pub open spec fn key_index(l: Seq<(String, RateLimit)>, c: Seq<char>) -> int {
    choose|i: int| 0 <= i < l.len() && (#[trigger] l[i]).0@ == c
}

pub open spec fn arranged(l: Seq<(String, RateLimit)>, current: Option<Seq<char>>) -> Seq<LimitModel> {
    match current {
        Some(c) => if has_key(l, c) {
            let i = key_index(l, c);
            seq![limit_view(l[i].1)] + rows_view(l.remove(i))
        } else {
            rows_view(l)
        },
        None => rows_view(l),
    }
}

fn read_optional_i64(v: &JsonValue, key: &str) -> (r: Result<Option<i64>, ()>)
    ensures
        match r {
            Ok(n) => optional_i64(v@, key@) == Some(n),
            Err(_) => optional_i64(v@, key@) is None,
        },
{
    match v.get(key) {
        None => Ok(None),
        Some(JsonValue::Null) => Ok(None),
        Some(JsonValue::Number(JsonNumber::Unsigned(n))) => if *n <= 9_223_372_036_854_775_807u64 {
            Ok(Some(*n as i64))
        } else {
            Err(())
        },
        Some(JsonValue::Number(JsonNumber::Negative(n))) => Ok(Some(*n)),
        Some(_) => Err(()),
    }
}

fn read_optional_bool(v: &JsonValue, key: &str) -> (r: Result<Option<bool>, ()>)
    ensures
        match r {
            Ok(b) => optional_bool(v@, key@) == Some(b),
            Err(_) => optional_bool(v@, key@) is None,
        },
{
    match v.get(key) {
        None => Ok(None),
        Some(JsonValue::Null) => Ok(None),
        Some(JsonValue::Bool(b)) => Ok(Some(*b)),
        Some(_) => Err(()),
    }
}

fn read_window(v: &JsonValue, key: &str) -> (r: Result<Option<RateLimitWindow>, ()>)
    ensures
        match r {
            Ok(w) => window_model(v@, key@) == Some(opt_window_view(w)),
            Err(_) => window_model(v@, key@) is None,
        },
{
    let w = match v.get(key) {
        None => {
            return Ok(None);
        },
        Some(JsonValue::Null) => {
            return Ok(None);
        },
        Some(w) => w,
    };
    if !w.is_object() {
        return Err(());
    }
    let used_percent = match w.get("usedPercent") {
        Some(JsonValue::Number(n)) => n.duplicate(),
        _ => {
            return Err(());
        },
    };
    let window_duration_mins = read_optional_u64(w, "windowDurationMins")?;
    let resets_at = read_optional_i64(w, "resetsAt")?;
    Ok(Some(RateLimitWindow { used_percent, window_duration_mins, resets_at }))
}

fn read_credits(v: &JsonValue) -> (r: Result<Option<CreditsInfo>, ()>)
    ensures
        match r {
            Ok(c) => credits_model(v@) == Some(opt_credits_view(c)),
            Err(_) => credits_model(v@) is None,
        },
{
    let c = match v.get("credits") {
        None => {
            return Ok(None);
        },
        Some(JsonValue::Null) => {
            return Ok(None);
        },
        Some(c) => c,
    };
    if !c.is_object() {
        return Err(());
    }
    let has_credits = match c.get("hasCredits") {
        Some(JsonValue::Bool(b)) => *b,
        _ => {
            return Err(());
        },
    };
    let unlimited = match c.get("unlimited") {
        Some(JsonValue::Bool(b)) => *b,
        _ => {
            return Err(());
        },
    };
    let balance = read_optional_string(c, "balance")?;
    Ok(Some(CreditsInfo { has_credits, unlimited, balance }))
}

/// Reads one bucket under `key`; its own limit ID wins over the key.
fn read_limit(v: &JsonValue, key: &str) -> (r: Result<(Option<String>, RateLimit), ()>)
    ensures
        match r {
            Ok((id, limit)) => raw_model(v@) matches Some(raw) && raw.0 == opt_string_view(id) && limit_view(limit)
                == normalized(raw, key@),
            Err(_) => raw_model(v@) is None,
        },
{
    if !v.is_object() {
        return Err(());
    }
    let id = read_optional_string(v, "limitId")?;
    let limit_name = read_optional_string(v, "limitName")?;
    let plan_type = read_optional_string(v, "planType")?;
    let primary = read_window(v, "primary")?;
    let secondary = read_window(v, "secondary")?;
    let credits = read_credits(v)?;
    let spend_control_reached = read_optional_bool(v, "spendControlReached")?;
    let rate_limit_reached_type = read_optional_string(v, "rateLimitReachedType")?;
    let limit_id = match &id {
        Some(i) => i.clone(),
        None => key.to_owned(),
    };
    Ok(
        (
            id,
            RateLimit {
                limit_id,
                limit_name,
                plan_type,
                primary,
                secondary,
                credits,
                spend_control_reached,
                rate_limit_reached_type,
            },
        ),
    )
}

/// Puts `limit` under `key`, replacing what was there.
fn put_limit(list: &mut Vec<(String, RateLimit)>, key: &str, limit: RateLimit)
    requires
        keys_ascending(old(list)@),
    ensures
        keys_ascending(final(list)@),
        keyed_view(final(list)@) == keyed_view(old(list)@).insert(key@, limit_view(limit)),
{
    let ghost before = list@;
    let ghost lv = limit_view(limit);
    match locate(list, key) {
        Ok(i) => {
            let (k, _) = list.remove(i);
            let ghost pair = (k, limit);
            list.insert(i, (k, limit));
            proof {
                assert(list@ =~= before.update(i as int, (before[i as int].0, pair.1)));
                lemma_assoc_set(before, i as int, pair.1);
                assert(keyed_view(list@) =~= keyed_view(before).insert(key@, lv));
            }
        },
        Err(p) => {
            let k = key.to_owned();
            proof {
                lemma_assoc_insert(before, p as int, k, limit);
            }
            let ghost pair = (k, limit);
            list.insert(p, (k, limit));
            proof {
                assert(list@ == before.insert(p as int, pair));
                assert(keyed_view(list@) =~= keyed_view(before).insert(key@, lv));
            }
        },
    }
}

/// Reads the buckets listed under `rateLimitsByLimitId`, by key.
fn read_by_id(value: &JsonValue) -> (r: Result<Vec<(String, RateLimit)>, ()>)
    ensures
        match r {
            Ok(list) => keys_ascending(list@) && by_id_model(value@) == Some(keyed_view(list@)),
            Err(_) => by_id_model(value@) is None,
        },
{
    let mut list: Vec<(String, RateLimit)> = Vec::new();
    proof {
        lemma_assoc_empty(list@);
        assert(keyed_view(list@) =~= Map::<Seq<char>, LimitModel>::empty());
    }
    let by_id = match value.get("rateLimitsByLimitId") {
        None => {
            return Ok(list);
        },
        Some(JsonValue::Null) => {
            return Ok(list);
        },
        Some(v) => v,
    };
    let members = match by_id {
        JsonValue::Object(members) => members,
        _ => {
            return Err(());
        },
    };
    let ghost ms = by_id@->Object_0;
    assert(value@.get("rateLimitsByLimitId"@) == Some(by_id@));
    assert(by_id@ == Json::Object(ms));
    assert(by_id_model(value@) == buckets_model(ms, ms.len()));
    assert(ms.len() == members@.len());
    let mut i: usize = 0;
    while i < members.len()
        invariant
            i <= members@.len(),
            ms.len() == members@.len(),
            by_id_model(value@) == buckets_model(ms, ms.len()),
            forall|q: int| 0 <= q < ms.len() ==> #[trigger] ms[q] == (members@[q].0@, members@[q].1@),
            keys_ascending(list@),
            buckets_model(ms, i as nat) == Some(keyed_view(list@)),
        decreases members@.len() - i,
    {
        let key = members[i].0.as_str();
        assert(ms[i as int] == (members@[i as int].0@, members@[i as int].1@));
        match read_limit(&members[i].1, key) {
            Ok((_, limit)) => {
                put_limit(&mut list, key, limit);
            },
            Err(_) => {
                assert(raw_model(ms[i as int].1) is None);
                assert(buckets_model(ms, (i + 1) as nat) is None);
                proof {
                    lemma_buckets_none_stays(ms, (i + 1) as nat, ms.len());
                }
                assert(by_id_model(value@) == buckets_model(ms, ms.len()));
                return Err(());
            },
        }
        i = i + 1;
    }
    Ok(list)
}

/// The buckets of an ascending list, the current one first when it is there.
fn arrange(list: Vec<(String, RateLimit)>, current: &Option<String>) -> (r: Vec<RateLimit>)
    requires
        keys_ascending(list@),
    ensures
        r@.map_values(|x: RateLimit| limit_view(x)) == arranged(list@, opt_string_view(*current)),
{
    let ghost full = list@;
    let mut list = list;
    let mut limits: Vec<RateLimit> = Vec::new();
    match current {
        Some(c) => match locate(&list, c.as_str()) {
            Ok(i) => {
                let (_, first) = list.remove(i);
                proof {
                    assert(full[i as int].0@ == c@);
                    assert(has_key(full, c@));
                    let j = key_index(full, c@);
                    assert(0 <= j < full.len() && full[j].0@ == c@);
                    lemma_key_unique(full, i as int, j);
                    assert(list@ == full.remove(j));
                    assert(opt_string_view(*current) == Some(c@));
                }
                limits.push(first);
                assert(limits@.map_values(|x: RateLimit| limit_view(x)) =~= seq![limit_view(full[i as int].1)]);
                assert(arranged(full, opt_string_view(*current)) == limits@.map_values(|x: RateLimit| limit_view(x)) + rows_view(list@));
            },
            Err(_) => {
                proof {
                    if has_key(full, c@) {
                        let j = choose|j: int| 0 <= j < full.len() && (#[trigger] full[j]).0@ == c@;
                        crate::pricing::lemma_text_lt_asymmetric(c@, c@);
                        assert(text_lt(full[j].0@, c@) || text_lt(c@, full[j].0@));
                    }
                }
                assert(limits@.map_values(|x: RateLimit| limit_view(x)) + rows_view(list@) =~= rows_view(list@));
            },
        },
        None => {
            assert(limits@.map_values(|x: RateLimit| limit_view(x)) + rows_view(list@) =~= rows_view(list@));
        },
    }
    let ghost start = limits@.map_values(|x: RateLimit| limit_view(x));
    let ghost rest = list@;
    assert(arranged(full, opt_string_view(*current)) == start + rows_view(rest));
    let mut k: usize = 0;
    let n = list.len();
    while list.len() > 0
        invariant
            list@ == rest.skip(k as int),
            k + list@.len() == n,
            n == rest.len(),
            limits@.map_values(|x: RateLimit| limit_view(x)) == start + rows_view(rest.take(k as int)),
        decreases list@.len(),
    {
        let ghost before = limits@;
        let (_, limit) = list.remove(0);
        assert(limit == rest[k as int].1);
        limits.push(limit);
        assert(limits@ == before.push(limit));
        assert(limits@.map_values(|x: RateLimit| limit_view(x)) =~= before.map_values(|x: RateLimit| limit_view(x)).push(limit_view(limit)));
        assert(rest.take(k + 1) == rest.take(k as int).push(rest[k as int]));
        assert(rows_view(rest.take(k + 1)) == rows_view(rest.take(k as int)).push(limit_view(limit)));
        assert(limits@.map_values(|x: RateLimit| limit_view(x)) =~= start + rows_view(rest.take(k + 1)));
        k = k + 1;
    }
    assert(rest.take(n as int) == rest);
    limits
}

/// Reads an `account/rateLimits/read` reply: the current limit ID and every
/// bucket, the current one first and the others in order of ID. A reply that
/// does not read is an `InvalidResponse` of that method.
pub fn parse_rate_limits(value: &JsonValue) -> (r: Result<(Option<String>, Vec<RateLimit>), CodexError>)
    ensures
        match rate_limits_model(value@) {
            None => r matches Err(e) && invalid_response(e, "account/rateLimits/read"@),
            Some((current, buckets)) => r matches Ok((c, limits)) && opt_string_view(c) == current && exists|l: Seq<(String, RateLimit)>|
                keys_ascending(l) && keyed_view(l) == buckets && #[trigger] arranged(l, current) == limits@.map_values(
                    |x: RateLimit| limit_view(x),
                ),
        },
{
    if !value.is_object() {
        return Err(invalid("account/rateLimits/read", "回复不是对象"));
    }
    let main = match value.get("rateLimits") {
        Some(m) => m,
        None => {
            return Err(invalid("account/rateLimits/read", "缺少 rateLimits"));
        },
    };
    let (current, main_limit) = match read_limit(main, "codex") {
        Ok(pair) => pair,
        Err(_) => {
            return Err(invalid("account/rateLimits/read", "rateLimits 无法读取"));
        },
    };
    let mut list = match read_by_id(value) {
        Ok(list) => list,
        Err(_) => {
            return Err(invalid("account/rateLimits/read", "rateLimitsByLimitId 无法读取"));
        },
    };
    let fallback: String = match &current {
        Some(id) => id.clone(),
        None => "codex".to_owned(),
    };
    match locate(&list, fallback.as_str()) {
        Ok(i) => {
            proof {
                lemma_value_at(list@, i as int);
            }
        },
        Err(p) => {
            proof {
                lemma_assoc_insert(list@, p as int, fallback, main_limit);
            }
            let ghost lv = limit_view(main_limit);
            let ghost before = list@;
            let ghost pair = (fallback, main_limit);
            list.insert(p, (fallback.clone(), main_limit));
            proof {
                assert(list@ == before.insert(p as int, (list@[p as int].0, pair.1)));
                assert(keyed_view(list@) =~= keyed_view(before).insert(fallback@, lv));
            }
        },
    }
    let ghost full = list@;
    let limits = arrange(list, &current);
    assert(arranged(full, opt_string_view(current)) == limits@.map_values(|x: RateLimit| limit_view(x)));
    Ok((current, limits))
}

} // verus!
