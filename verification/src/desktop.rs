//! What the library reads from Codex Desktop's local IPC: the state patches it
//! streams, and the turn a state shows.
use vstd::prelude::*;
use crate::json::{Json, JsonNumber, JsonValue, NumberModel};
use crate::text::{decimal, decimal_string, has_infix, str_contains, str_eq, str_trim, trim_spec};

verus! {

broadcast use vstd::string::group_string_axioms;

/// How a Desktop turn ended.
#[derive(Debug)]
pub enum DesktopTurnOutcome {
    Completed(String),
    Aborted,
    Failed(String),
}

/// Whether a state change message carries patches (older clients say `patch`,
/// newer ones `patches`) rather than a full snapshot.
pub fn is_incremental_state_change(kind: &str) -> (r: bool)
    ensures
        r == (kind@ == "patch"@ || kind@ == "patches"@),
{
    str_eq(kind, "patch") || str_eq(kind, "patches")
}

pub open spec fn no_owner(error: Seq<char>) -> bool {
    let e = crate::text::ascii_lower(error);
    ||| has_infix(e, "no client"@)
    ||| has_infix(e, "no handler"@)
    ||| has_infix(e, "not handled"@)
    ||| has_infix(e, "timed out"@)
    ||| has_infix(e, "超时"@)
}

/// Whether an IPC error means that no Desktop window owns the task.
pub fn is_no_owner_error(error: &str) -> (r: bool)
    ensures
        r == no_owner(error@),
{
    let lowered = crate::text::str_ascii_lowercase(error);
    let e = lowered.as_str();
    str_contains(e, "no client") || str_contains(e, "no handler") || str_contains(e, "not handled")
        || str_contains(e, "timed out") || str_contains(e, "超时")
}

/// A turn's ID: `turnId`, else `id`, when it is a string.
pub open spec fn turn_id_model(turn: Json) -> Option<Seq<char>> {
    match turn.get("turnId"@) {
        Some(v) => v.str_of(),
        None => match turn.get("id"@) {
            Some(v) => v.str_of(),
            None => None,
        },
    }
}

pub fn turn_id(turn: &JsonValue) -> (r: Option<String>)
    ensures
        crate::json::opt_string_view(r) == turn_id_model(turn@),
{
    let found = match turn.get("turnId") {
        Some(v) => Some(v),
        None => turn.get("id"),
    };
    match found {
        Some(v) => match v.as_str() {
            Some(s) => Some(s.to_owned()),
            None => None,
        },
        None => None,
    }
}

/// The turn ID a reply carries, at the first of the places Desktop puts it.
pub open spec fn found_turn_id(value: Json) -> Option<Seq<char>> {
    let candidates = seq![
        value.at(seq!["turnId"@]),
        value.at(seq!["turn"@, "id"@]),
        value.at(seq!["result"@, "turnId"@]),
        value.at(seq!["result"@, "turn"@, "id"@]),
        value.at(seq!["result"@, "result"@, "turn"@, "id"@]),
    ];
    match first_string(candidates, 0) {
        Some(s) => if s.len() > 0 {
            Some(s)
        } else {
            None
        },
        None => None,
    }
}

/// The first string among the candidates from `i` on.
pub open spec fn first_string(candidates: Seq<Option<Json>>, i: int) -> Option<Seq<char>>
    decreases candidates.len() - i,
{
    if i < 0 || i >= candidates.len() {
        None
    } else {
        match candidates[i] {
            Some(v) => match v.str_of() {
                Some(s) => Some(s),
                None => first_string(candidates, i + 1),
            },
            None => first_string(candidates, i + 1),
        }
    }
}

fn string_at<'a>(value: &'a JsonValue, path: &[&str]) -> (r: Option<&'a str>)
    ensures
        crate::json::opt_str_view(r) == match value@.at(path@.map_values(|p: &str| p@)) {
            Some(v) => v.str_of(),
            None => None,
        },
{
    match value.pointer(path) {
        Some(v) => v.as_str(),
        None => None,
    }
}

/// The turn ID in a Desktop reply, if it carries a non-empty one.
pub fn find_turn_id(value: &JsonValue) -> (r: Option<String>)
    ensures
        crate::json::opt_string_view(r) == found_turn_id(value@),
{
    let p1: [&str; 1] = ["turnId"];
    let p2: [&str; 2] = ["turn", "id"];
    let p3: [&str; 2] = ["result", "turnId"];
    let p4: [&str; 3] = ["result", "turn", "id"];
    let p5: [&str; 4] = ["result", "result", "turn", "id"];
    proof {
        assert(p1@.map_values(|p: &str| p@) == seq!["turnId"@]);
        assert(p2@.map_values(|p: &str| p@) == seq!["turn"@, "id"@]);
        assert(p3@.map_values(|p: &str| p@) == seq!["result"@, "turnId"@]);
        assert(p4@.map_values(|p: &str| p@) == seq!["result"@, "turn"@, "id"@]);
        assert(p5@.map_values(|p: &str| p@) == seq!["result"@, "result"@, "turn"@, "id"@]);
        reveal_with_fuel(first_string, 6);
    }
    let found = match string_at(value, p1.as_slice()) {
        Some(s) => Some(s),
        None => match string_at(value, p2.as_slice()) {
            Some(s) => Some(s),
            None => match string_at(value, p3.as_slice()) {
                Some(s) => Some(s),
                None => match string_at(value, p4.as_slice()) {
                    Some(s) => Some(s),
                    None => string_at(value, p5.as_slice()),
                },
            },
        },
    };
    match found {
        Some(s) => if !s.is_empty() {
            Some(s.to_owned())
        } else {
            None
        },
        None => None,
    }
}

/// Index of the last agent message among a turn's first `n` items.
pub open spec fn last_agent_index(items: Seq<Json>, n: int) -> Option<int>
    decreases n,
{
    if n <= 0 {
        None
    } else if items[n - 1].str_at("type"@) == Some("agentMessage"@) {
        Some(n - 1)
    } else {
        last_agent_index(items, n - 1)
    }
}

/// The trimmed text of a turn's last agent message, when it has any.
pub open spec fn last_agent_text_model(turn: Json) -> Option<Seq<char>> {
    match turn.get("items"@) {
        Some(Json::Array(items)) => match last_agent_index(items, items.len() as int) {
            Some(i) => match items[i].str_at("text"@) {
                Some(t) => if trim_spec(t).len() > 0 {
                    Some(trim_spec(t))
                } else {
                    None
                },
                None => None,
            },
            None => None,
        },
        _ => None,
    }
}

/// The text of a turn's last agent message.
pub fn last_agent_text(turn: &JsonValue) -> (r: Option<String>)
    ensures
        crate::json::opt_string_view(r) == last_agent_text_model(turn@),
{
    let items = match turn.get("items") {
        Some(JsonValue::Array(items)) => items,
        _ => {
            return None;
        },
    };
    let ghost model = turn@.get("items"@).unwrap()->Array_0;
    assert(forall|k: int| 0 <= k < items@.len() ==> #[trigger] model[k] == items@[k]@);
    let mut n: usize = items.len();
    while n > 0
        invariant
            n <= items@.len(),
            model.len() == items@.len(),
            turn@.get("items"@) == Some(Json::Array(model)),
            forall|k: int| 0 <= k < items@.len() ==> #[trigger] model[k] == items@[k]@,
            last_agent_index(model, model.len() as int) == last_agent_index(model, n as int),
        decreases n,
    {
        let item = &items[n - 1];
        assert(model[n - 1] == item@);
        let is_agent = match item.str_at("type") {
            Some(k) => str_eq(k, "agentMessage"),
            None => false,
        };
        if is_agent {
            assert(last_agent_index(model, n as int) == Some(n - 1));
            return match item.str_at("text") {
                Some(t) => {
                    let trimmed = str_trim(t);
                    if !trimmed.is_empty() {
                        Some(trimmed.to_owned())
                    } else {
                        None
                    }
                },
                None => None,
            };
        }
        n = n - 1;
    }
    None
}

pub open spec fn outcome_view(o: DesktopTurnOutcome) -> (int, Seq<char>) {
    match o {
        DesktopTurnOutcome::Completed(t) => (0, t@),
        DesktopTurnOutcome::Aborted => (1, Seq::empty()),
        DesktopTurnOutcome::Failed(e) => (2, e@),
    }
}

/// How a turn ended, from its status: `(0, answer)` completed, `(1, _)`
/// aborted, `(2, error)` failed; `None` while it runs.
pub open spec fn turn_outcome_model(turn: Json) -> Option<(int, Seq<char>)> {
    match turn.str_at("status"@) {
        None => None,
        Some(status) => if status == "completed"@ {
            Some(
                (
                    0,
                    match last_agent_text_model(turn) {
                        Some(t) => t,
                        None => "Codex 回合已结束。"@,
                    },
                ),
            )
        } else if status == "interrupted"@ || status == "aborted"@ || status == "cancelled"@ {
            Some((1, Seq::empty()))
        } else if status == "failed"@ {
            let message = match turn.get("error"@) {
                Some(e) => match e.str_of() {
                    Some(s) => Some(s),
                    None => e.str_at("message"@),
                },
                None => None,
            };
            Some(
                (
                    2,
                    match message {
                        Some(m) => m,
                        None => "Codex 回合失败"@,
                    },
                ),
            )
        } else {
            None
        },
    }
}

/// How a Desktop turn ended, if it has.
pub fn turn_outcome(turn: &JsonValue) -> (r: Option<DesktopTurnOutcome>)
    ensures
        match r {
            Some(o) => turn_outcome_model(turn@) == Some(outcome_view(o)),
            None => turn_outcome_model(turn@) is None,
        },
{
    let status = match turn.str_at("status") {
        Some(s) => s,
        None => {
            return None;
        },
    };
    if str_eq(status, "completed") {
        let text = match last_agent_text(turn) {
            Some(t) => t,
            None => "Codex 回合已结束。".to_owned(),
        };
        Some(DesktopTurnOutcome::Completed(text))
    } else if str_eq(status, "interrupted") || str_eq(status, "aborted") || str_eq(
        status,
        "cancelled",
    ) {
        Some(DesktopTurnOutcome::Aborted)
    } else if str_eq(status, "failed") {
        let message: Option<String> = match turn.get("error") {
            Some(e) => match e.as_str() {
                Some(s) => Some(s.to_owned()),
                None => match e.str_at("message") {
                    Some(m) => Some(m.to_owned()),
                    None => None,
                },
            },
            None => None,
        };
        let text = match message {
            Some(m) => m,
            None => "Codex 回合失败".to_owned(),
        };
        Some(DesktopTurnOutcome::Failed(text))
    } else {
        None
    }
}

/// `s.parse::<usize>()`: an optional `+`, then one or more digits.
pub open spec fn parsed_index(s: Seq<char>) -> Option<nat> {
    let digits = if s.len() > 0 && s[0] == '+' {
        s.drop_first()
    } else {
        s
    };
    if digits.len() > 0 && crate::provider::all_digits(digits) && crate::provider::digits_value(
        digits,
    ) <= usize::MAX {
        Some(crate::provider::digits_value(digits))
    } else {
        None
    }
}

pub fn parse_index(text: &str) -> (r: Option<usize>)
    ensures
        match r {
            Some(n) => parsed_index(text@) == Some(n as nat),
            None => parsed_index(text@) is None,
        },
{
    let chars = crate::text::chars_of(text);
    let start: usize = if chars.len() > 0 && chars[0] == '+' {
        1
    } else {
        0
    };
    let ghost digits = if text@.len() > 0 && text@[0] == '+' {
        text@.drop_first()
    } else {
        text@
    };
    assert(digits == chars@.skip(start as int));
    if chars.len() == start {
        return None;
    }
    let mut value: usize = 0;
    let mut i: usize = start;
    while i < chars.len()
        invariant
            start <= i <= chars@.len(),
            chars@ == text@,
            digits == chars@.skip(start as int),
            digits == (if text@.len() > 0 && text@[0] == '+' {
                text@.drop_first()
            } else {
                text@
            }),
            value == crate::provider::digits_value(digits.take(i - start)),
            crate::provider::all_digits(digits.take(i - start)),
        decreases chars@.len() - i,
    {
        let c = chars[i];
        assert(digits.take(i - start + 1).drop_last() == digits.take(i - start));
        assert(digits.take(i - start + 1).last() == c);
        assert(digits[i - start] == c);
        if c < '0' || c > '9' {
            assert(!crate::text::is_ascii_digit(digits[i - start]));
            assert(!crate::provider::all_digits(digits));
            return None;
        }
        let d = ((c as u32) - ('0' as u32)) as usize;
        assert(crate::provider::digit_value(c) == d);
        assert(crate::provider::all_digits(digits.take(i - start + 1)));
        if value > (usize::MAX - d) / 10 {
            proof {
                assert(value * 10 + d > usize::MAX) by (nonlinear_arith)
                    requires
                        value > (usize::MAX - d) / 10,
                        d <= 9,
                ;
                if crate::provider::all_digits(digits) {
                    lemma_digits_grow(digits, i - start + 1);
                }
            }
            return None;
        }
        assert(value * 10 + d <= usize::MAX) by (nonlinear_arith)
            requires
                value <= (usize::MAX - d) / 10,
                d <= 9,
        ;
        value = value * 10 + d;
        i = i + 1;
    }
    assert(digits.take(i - start) == digits);
    Some(value)
}

proof fn lemma_digits_grow(s: Seq<char>, k: int)
    requires
        0 <= k <= s.len(),
        crate::provider::all_digits(s),
    ensures
        crate::provider::digits_value(s.take(k)) <= crate::provider::digits_value(s),
    decreases s.len() - k,
{
    if k < s.len() {
        lemma_digits_grow(s, k + 1);
        assert(s.take(k + 1).drop_last() == s.take(k));
        assert(crate::provider::digits_value(s.take(k + 1)) == crate::provider::digits_value(s.take(k)) * 10 + crate::provider::digit_value(s[k])) by {
            assert(s.take(k + 1).last() == s[k]);
        }
        assert(crate::provider::digits_value(s.take(k)) <= crate::provider::digits_value(s.take(k)) * 10 + crate::provider::digit_value(s[k])) by (nonlinear_arith);
    } else {
        assert(s.take(k) == s);
    }
}

/// An object key in a patch path: a string, or an unsigned integer's digits.
pub open spec fn path_key_model(v: Json) -> Result<Seq<char>, Seq<char>> {
    match v {
        Json::Str(s) => Ok(s),
        Json::Number(NumberModel::Unsigned(n)) => Ok(decimal(n as nat)),
        _ => Err("Codex Desktop patch 对象键无效"@),
    }
}

pub open spec fn result_view(r: Result<String, String>) -> Result<Seq<char>, Seq<char>> {
    match r {
        Ok(s) => Ok(s@),
        Err(e) => Err(e@),
    }
}

pub fn path_key(v: &JsonValue) -> (r: Result<String, String>)
    ensures
        result_view(r) == path_key_model(v@),
{
    match v {
        JsonValue::String(s) => Ok(s.clone()),
        JsonValue::Number(JsonNumber::Unsigned(n)) => Ok(decimal_string(*n as u128)),
        _ => Err("Codex Desktop patch 对象键无效".to_owned()),
    }
}

/// An array index in a patch path, checked against the array's length; `-`
/// names the end where an element may be added.
pub open spec fn path_index_model(v: Json, len: nat, allow_end: bool) -> Result<nat, Seq<char>> {
    if allow_end && v == Json::Str("-"@) {
        Ok(len)
    } else {
        let index = match v {
            Json::Number(NumberModel::Unsigned(n)) => Some(n as usize as nat),
            Json::Str(s) => parsed_index(s),
            _ => None,
        };
        match index {
            None => Err("Codex Desktop patch 数组下标无效"@),
            Some(i) => if i > len || (!allow_end && i == len) {
                Err("Codex Desktop patch 数组下标越界："@ + decimal(i))
            } else {
                Ok(i)
            },
        }
    }
}

pub fn path_index(v: &JsonValue, len: usize, allow_end: bool) -> (r: Result<usize, String>)
    ensures
        match r {
            Ok(i) => path_index_model(v@, len as nat, allow_end) == Ok::<nat, Seq<char>>(i as nat),
            Err(e) => path_index_model(v@, len as nat, allow_end) == Err::<nat, Seq<char>>(e@),
        },
{
    let is_end = match v {
        JsonValue::String(s) => str_eq(s.as_str(), "-"),
        _ => false,
    };
    if allow_end && is_end {
        proof {
            assert(v@ == Json::Str("-"@));
        }
        return Ok(len);
    }
    proof {
        if v@ == Json::Str("-"@) {
            assert(is_end);
        }
    }
    let index: Option<usize> = match v {
        JsonValue::Number(JsonNumber::Unsigned(n)) => Some(*n as usize),
        JsonValue::String(s) => parse_index(s.as_str()),
        _ => None,
    };
    match index {
        None => Err("Codex Desktop patch 数组下标无效".to_owned()),
        Some(i) => {
            if i > len || (!allow_end && i == len) {
                let mut message = "Codex Desktop patch 数组下标越界：".to_owned();
                let digits = decimal_string(i as u128);
                message.append(digits.as_str());
                Err(message)
            } else {
                Ok(i)
            }
        },
    }
}

/// An object's members with `key` set to `v`: in place when present, else appended.
pub open spec fn set_member(ms: Seq<(Seq<char>, Json)>, key: Seq<char>, v: Json) -> Seq<(Seq<char>, Json)> {
    let i = crate::json::key_position(ms, key);
    if i < ms.len() {
        ms.update(i, (key, v))
    } else {
        ms.push((key, v))
    }
}

/// An object's members without `key`.
pub open spec fn remove_member(ms: Seq<(Seq<char>, Json)>, key: Seq<char>) -> Seq<(Seq<char>, Json)> {
    let i = crate::json::key_position(ms, key);
    if i < ms.len() {
        ms.remove(i)
    } else {
        ms
    }
}

pub open spec fn unsupported(op: Seq<char>) -> Seq<char> {
    "不支持的 Codex Desktop patch 操作："@ + op
}

pub open spec fn missing_value() -> Seq<char> {
    "Codex Desktop patch 缺少 value"@
}

/// One JSON patch operation (`add`, `replace` or `remove`) at `path`, as Codex
/// Desktop streams them.
pub open spec fn patch_model(target: Json, path: Seq<Json>, op: Seq<char>, value: Option<Json>) -> Result<Json, Seq<char>>
    decreases path.len(),
{
    if path.len() == 0 {
        if op == "add"@ || op == "replace"@ {
            match value {
                Some(v) => Ok(v),
                None => Err(missing_value()),
            }
        } else if op == "remove"@ {
            Ok(Json::Null)
        } else {
            Err(unsupported(op))
        }
    } else if path.len() == 1 {
        match target {
            Json::Object(ms) => match path_key_model(path[0]) {
                Err(e) => Err(e),
                Ok(key) => if op == "add"@ || op == "replace"@ {
                    match value {
                        Some(v) => Ok(Json::Object(set_member(ms, key, v))),
                        None => Err(missing_value()),
                    }
                } else if op == "remove"@ {
                    Ok(Json::Object(remove_member(ms, key)))
                } else {
                    Err(unsupported(op))
                },
            },
            Json::Array(xs) => match path_index_model(path[0], xs.len(), op == "add"@) {
                Err(e) => Err(e),
                Ok(i) => if op == "add"@ {
                    match value {
                        Some(v) => Ok(Json::Array(xs.insert(i as int, v))),
                        None => Err(missing_value()),
                    }
                } else if op == "replace"@ {
                    match value {
                        Some(v) => Ok(Json::Array(xs.update(i as int, v))),
                        None => Err(missing_value()),
                    }
                } else if op == "remove"@ {
                    Ok(Json::Array(xs.remove(i as int)))
                } else {
                    Err(unsupported(op))
                },
            },
            _ => Err("Codex Desktop patch 的父节点不是对象或数组"@),
        }
    } else {
        match target {
            Json::Object(ms) => match path_key_model(path[0]) {
                Err(e) => Err(e),
                Ok(key) => {
                    let i = crate::json::key_position(ms, key);
                    if i < ms.len() {
                        match patch_model(ms[i].1, path.drop_first(), op, value) {
                            Ok(child) => Ok(Json::Object(ms.update(i, (ms[i].0, child)))),
                            Err(e) => Err(e),
                        }
                    } else {
                        Err("Codex Desktop patch 对象路径不存在"@)
                    }
                },
            },
            Json::Array(xs) => match path_index_model(path[0], xs.len(), false) {
                Err(e) => Err(e),
                Ok(i) => match patch_model(xs[i as int], path.drop_first(), op, value) {
                    Ok(child) => Ok(Json::Array(xs.update(i as int, child))),
                    Err(e) => Err(e),
                },
            },
            _ => Err("Codex Desktop patch 路径经过非容器节点"@),
        }
    }
}

pub open spec fn opt_json(v: Option<JsonValue>) -> Option<Json> {
    match v {
        Some(x) => Some(x@),
        None => None,
    }
}

fn position_of_key(members: &Vec<(String, JsonValue)>, key: &str) -> (r: usize)
    ensures
        r == crate::json::key_position(crate::json::members_view(members@), key@),
{
    let ghost ms = crate::json::members_view(members@);
    proof {
        crate::json::lemma_key_position(ms, key@);
    }
    let mut i: usize = 0;
    while i < members.len()
        invariant
            i <= members@.len(),
            ms == crate::json::members_view(members@),
            forall|j: int| 0 <= j < i ==> ms[j].0 != key@,
            0 <= crate::json::key_position(ms, key@) <= ms.len(),
            forall|j: int| 0 <= j < crate::json::key_position(ms, key@) ==> ms[j].0 != key@,
            crate::json::key_position(ms, key@) < ms.len() ==> ms[crate::json::key_position(ms, key@)].0 == key@,
        decreases members@.len() - i,
    {
        if str_eq(members[i].0.as_str(), key) {
            assert(ms[i as int].0 == key@);
            return i;
        }
        i = i + 1;
    }
    i
}

/// Applies one patch operation to `target`; on failure `target` comes back
/// unchanged with the reason.
pub fn apply_patch(
    target: JsonValue,
    path: &[JsonValue],
    depth: usize,
    op: &str,
    value: Option<JsonValue>,
) -> (r: (JsonValue, Option<String>))
    requires
        depth <= path@.len(),
    ensures
        match patch_model(
            target@,
            path@.skip(depth as int).map_values(|p: JsonValue| p@),
            op@,
            opt_json(value),
        ) {
            Ok(v) => r.0@ == v && r.1 is None,
            Err(e) => r.0@ == target@ && (r.1 matches Some(m) && m@ == e),
        },
    decreases path@.len() - depth,
{
    let ghost rest = path@.skip(depth as int).map_values(|p: JsonValue| p@);
    if depth == path.len() {
        assert(rest.len() == 0);
        if str_eq(op, "add") || str_eq(op, "replace") {
            return match value {
                Some(v) => (v, None),
                None => (target, Some("Codex Desktop patch 缺少 value".to_owned())),
            };
        } else if str_eq(op, "remove") {
            return (JsonValue::Null, None);
        } else {
            let mut message = "不支持的 Codex Desktop patch 操作：".to_owned();
            message.append(op);
            return (target, Some(message));
        }
    }
    assert(rest[0] == path@[depth as int]@);
    assert(rest.drop_first() == path@.skip(depth + 1).map_values(|p: JsonValue| p@));
    let leaf = depth + 1 == path.len();
    match target {
        JsonValue::Object(mut members) => {
            let ghost ms = crate::json::members_view(members@);
            assert(JsonValue::Object(members)@->Object_0 =~= ms);
            let key = match path_key(&path[depth]) {
                Ok(key) => key,
                Err(e) => {
                    return (JsonValue::object(members), Some(e));
                },
            };
            let i = position_of_key(&members, key.as_str());
            proof {
                crate::json::lemma_key_position(ms, key@);
            }
            if leaf {
                if str_eq(op, "add") || str_eq(op, "replace") {
                    match value {
                        Some(v) => {
                            if i < members.len() {
                                members.set(i, (key, v));
                                assert(crate::json::members_view(members@) == set_member(ms, key@, v@));
                            } else {
                                members.push((key, v));
                                assert(crate::json::members_view(members@) == set_member(ms, key@, v@));
                            }
                            (JsonValue::object(members), None)
                        },
                        None => (JsonValue::object(members), Some("Codex Desktop patch 缺少 value".to_owned())),
                    }
                } else if str_eq(op, "remove") {
                    if i < members.len() {
                        members.remove(i);
                    }
                    assert(crate::json::members_view(members@) == remove_member(ms, key@));
                    (JsonValue::object(members), None)
                } else {
                    let mut message = "不支持的 Codex Desktop patch 操作：".to_owned();
                    message.append(op);
                    (JsonValue::object(members), Some(message))
                }
            } else {
                if i >= members.len() {
                    return (JsonValue::object(members), Some("Codex Desktop patch 对象路径不存在".to_owned()));
                }
                let (name, child) = members.remove(i);
                let ghost without = members@;
                let (new_child, error) = apply_patch(child, path, depth + 1, op, value);
                members.insert(i, (name, new_child));
                proof {
                    assert(ms[i as int].1 == child@);
                    if error is None {
                        assert(crate::json::members_view(members@) == ms.update(i as int, (ms[i as int].0, new_child@)));
                    } else {
                        assert(crate::json::members_view(members@) == ms);
                    }
                }
                (JsonValue::object(members), error)
            }
        },
        JsonValue::Array(mut items) => {
            let ghost xs = crate::json::items_view(items@);
            assert(JsonValue::Array(items)@->Array_0 =~= xs);
            let allow_end = leaf && str_eq(op, "add");
            let index = match path_index(&path[depth], items.len(), allow_end) {
                Ok(index) => index,
                Err(e) => {
                    return (JsonValue::array(items), Some(e));
                },
            };
            if leaf {
                if str_eq(op, "add") {
                    match value {
                        Some(v) => {
                            items.insert(index, v);
                            assert(crate::json::items_view(items@) == xs.insert(index as int, v@));
                            (JsonValue::array(items), None)
                        },
                        None => (JsonValue::array(items), Some("Codex Desktop patch 缺少 value".to_owned())),
                    }
                } else if str_eq(op, "replace") {
                    match value {
                        Some(v) => {
                            items.set(index, v);
                            assert(crate::json::items_view(items@) == xs.update(index as int, v@));
                            (JsonValue::array(items), None)
                        },
                        None => (JsonValue::array(items), Some("Codex Desktop patch 缺少 value".to_owned())),
                    }
                } else if str_eq(op, "remove") {
                    items.remove(index);
                    assert(crate::json::items_view(items@) == xs.remove(index as int));
                    (JsonValue::array(items), None)
                } else {
                    let mut message = "不支持的 Codex Desktop patch 操作：".to_owned();
                    message.append(op);
                    (JsonValue::array(items), Some(message))
                }
            } else {
                let child = items.remove(index);
                let (new_child, error) = apply_patch(child, path, depth + 1, op, value);
                items.insert(index, new_child);
                proof {
                    if error is None {
                        assert(crate::json::items_view(items@) == xs.update(index as int, new_child@));
                    } else {
                        assert(crate::json::items_view(items@) == xs);
                    }
                }
                (JsonValue::array(items), error)
            }
        },
        other => {
            if leaf {
                (other, Some("Codex Desktop patch 的父节点不是对象或数组".to_owned()))
            } else {
                (other, Some("Codex Desktop patch 路径经过非容器节点".to_owned()))
            }
        },
    }
}

/// One patch object applied to `t`: its `op`, `path` and `value` members.
pub open spec fn one_patch(t: Json, patch: Json) -> Result<Json, Seq<char>> {
    match patch.str_at("op"@) {
        None => Err("Codex Desktop patch 缺少 op"@),
        Some(op) => match patch.get("path"@) {
            Some(Json::Array(path)) => patch_model(t, path, op, patch.get("value"@)),
            _ => Err("Codex Desktop patch 缺少 path"@),
        },
    }
}

/// The patches applied in order, stopping at the first that fails: the state
/// reached and, if one failed, why.
pub open spec fn patches_model(t: Json, patches: Seq<Json>) -> (Json, Option<Seq<char>>)
    decreases patches.len(),
{
    if patches.len() == 0 {
        (t, None)
    } else {
        let (mid, error) = patches_model(t, patches.drop_last());
        if error is Some {
            (mid, error)
        } else {
            match one_patch(mid, patches.last()) {
                Ok(next) => (next, None),
                Err(e) => (mid, Some(e)),
            }
        }
    }
}

proof fn lemma_patches_error_sticks(t: Json, patches: Seq<Json>, i: int, n: int)
    requires
        0 <= i <= n <= patches.len(),
        patches_model(t, patches.take(i)).1 is Some,
    ensures
        patches_model(t, patches.take(n)) == patches_model(t, patches.take(i)),
    decreases n - i,
{
    if n > i {
        lemma_patches_error_sticks(t, patches, i, n - 1);
        assert(patches.take(n).drop_last() == patches.take(n - 1));
    }
}

/// Applies Desktop's state patches in order; the state reached is returned even
/// when a later patch fails.
pub fn apply_patches(target: JsonValue, patches: &[JsonValue]) -> (r: (JsonValue, Option<String>))
    ensures
        r.0@ == patches_model(target@, patches@.map_values(|p: JsonValue| p@)).0,
        match patches_model(target@, patches@.map_values(|p: JsonValue| p@)).1 {
            Some(e) => r.1 matches Some(m) && m@ == e,
            None => r.1 is None,
        },
{
    let ghost all = patches@.map_values(|p: JsonValue| p@);
    let ghost start = target@;
    let mut current = target;
    let mut i: usize = 0;
    assert(all.take(0).len() == 0);
    while i < patches.len()
        invariant
            i <= patches@.len(),
            all == patches@.map_values(|p: JsonValue| p@),
            start == target@,
            patches_model(start, all.take(i as int)) == (current@, None::<Seq<char>>),
        decreases patches@.len() - i,
    {
        let patch = &patches[i];
        assert(all.take(i + 1).drop_last() == all.take(i as int));
        assert(all.take(i + 1).last() == patch@);
        let op = match patch.str_at("op") {
            Some(op) => op,
            None => {
                proof {
                    assert(one_patch(current@, patch@) == Err::<Json, Seq<char>>("Codex Desktop patch 缺少 op"@));
                    assert(patches_model(start, all.take(i + 1)) == (current@, Some("Codex Desktop patch 缺少 op"@)));
                    lemma_patches_error_sticks(start, all, i + 1, all.len() as int);
                    assert(all.take(all.len() as int) == all);
                }
                return (current, Some("Codex Desktop patch 缺少 op".to_owned()));
            },
        };
        let path = match patch.get("path") {
            Some(JsonValue::Array(path)) => path,
            _ => {
                proof {
                    lemma_patches_error_sticks(start, all, i + 1, all.len() as int);
                    assert(all.take(all.len() as int) == all);
                }
                return (current, Some("Codex Desktop patch 缺少 path".to_owned()));
            },
        };
        let value = match patch.get("value") {
            Some(v) => Some(v.duplicate()),
            None => None,
        };
        proof {
            assert(path@.skip(0).map_values(|p: JsonValue| p@) == patch@.get("path"@).unwrap()->Array_0);
        }
        let (next, error) = apply_patch(current, path.as_slice(), 0, op, value);
        match error {
            Some(e) => {
                proof {
                    lemma_patches_error_sticks(start, all, i + 1, all.len() as int);
                    assert(all.take(all.len() as int) == all);
                }
                return (next, Some(e));
            },
            None => {
                current = next;
            },
        }
        i = i + 1;
    }
    assert(all.take(patches@.len() as int) == all);
    (current, None)
}


/// An approval Desktop is waiting for.
#[derive(Debug)]
pub struct DesktopPendingRequest {
    pub request_id: JsonValue,
    pub method: String,
    pub params: JsonValue,
}

/// What the library reads of a Desktop task's state.
#[derive(Debug)]
pub struct DesktopThreadView {
    pub active_turn_id: Option<String>,
    pub agent_preview: Option<String>,
    pub pending_request: Option<DesktopPendingRequest>,
    pub outcome: Option<DesktopTurnOutcome>,
}

/// The last pending request and the name it is filed under, if it is filed
/// under one: the last member of an object, or the last element of a list.
pub open spec fn last_request(requests: Json) -> Option<(Option<Seq<char>>, Json)> {
    match requests {
        Json::Object(ms) => if ms.len() > 0 {
            Some((Some(ms.last().0), ms.last().1))
        } else {
            None
        },
        Json::Array(items) => if items.len() > 0 {
            Some((None, items.last()))
        } else {
            None
        },
        _ => None,
    }
}

/// The pending request a state shows, when it asks for an approval or a
/// permission: `(id, method, params)`.
pub open spec fn pending_request_model(state: Json) -> Option<(Json, Seq<char>, Json)> {
    match state.get("requests"@) {
        None => None,
        Some(requests) => match last_request(requests) {
            None => None,
            Some((fallback, request)) => {
                let named = match request.get("method"@) {
                    Some(m) => Some(m),
                    None => request.get("type"@),
                };
                match named {
                    None => None,
                    Some(m) => match m.str_of() {
                        None => None,
                        Some(method) => if !has_infix(crate::text::ascii_lower(method), "approval"@) && !has_infix(
                            crate::text::ascii_lower(method),
                            "permission"@,
                        ) {
                            None
                        } else {
                            let id = match request.get("requestId"@) {
                                Some(i) => Some(i),
                                None => match request.get("id"@) {
                                    Some(i) => Some(i),
                                    None => match fallback {
                                        Some(k) => Some(Json::Str(k)),
                                        None => None,
                                    },
                                },
                            };
                            match id {
                                None => None,
                                Some(i) => Some(
                                    (
                                        i,
                                        method,
                                        match request.get("params"@) {
                                            Some(p) => p,
                                            None => request,
                                        },
                                    ),
                                ),
                            }
                        }
                    },
                }
            },
        },
    }
}

pub open spec fn request_view(r: DesktopPendingRequest) -> (Json, Seq<char>, Json) {
    (r.request_id@, r.method@, r.params@)
}

/// The approval a Desktop state is waiting for, if any.
pub fn pending_request(state: &JsonValue) -> (r: Option<DesktopPendingRequest>)
    ensures
        match r {
            Some(q) => pending_request_model(state@) == Some(request_view(q)),
            None => pending_request_model(state@) is None,
        },
{
    let requests = match state.get("requests") {
        Some(r) => r,
        None => {
            return None;
        },
    };
    let (fallback, request): (Option<&str>, &JsonValue) = match requests {
        JsonValue::Object(ms) => {
            if ms.len() == 0 {
                return None;
            }
            let last = &ms[ms.len() - 1];
            assert(requests@->Object_0.last() == (last.0@, last.1@));
            (Some(last.0.as_str()), &last.1)
        },
        JsonValue::Array(items) => {
            if items.len() == 0 {
                return None;
            }
            assert(requests@->Array_0.last() == items@[items@.len() - 1]@);
            (None, &items[items.len() - 1])
        },
        _ => {
            return None;
        },
    };
    let named = match request.get("method") {
        Some(m) => Some(m),
        None => request.get("type"),
    };
    let method = match named {
        Some(m) => match m.as_str() {
            Some(t) => t,
            None => {
                return None;
            },
        },
        None => {
            return None;
        },
    };
    let lowered = crate::text::str_ascii_lowercase(method);
    if !str_contains(lowered.as_str(), "approval") && !str_contains(lowered.as_str(), "permission") {
        return None;
    }
    let request_id = match request.get("requestId") {
        Some(i) => i.duplicate(),
        None => match request.get("id") {
            Some(i) => i.duplicate(),
            None => match fallback {
                Some(k) => JsonValue::String(k.to_owned()),
                None => {
                    return None;
                },
            },
        },
    };
    let params = match request.get("params") {
        Some(p) => p.duplicate(),
        None => request.duplicate(),
    };
    Some(DesktopPendingRequest { request_id, method: method.to_owned(), params })
}


/// The turn a history entry stands for: the entry itself when it is a turn,
/// else the entity its key names.
pub open spec fn resolve_entry(value: Option<Json>, entities: Json) -> Option<Json> {
    match value {
        None => None,
        Some(v) => if turn_id_model(v) is Some {
            Some(v)
        } else {
            match v.str_of() {
                Some(k) => entities.get(k),
                None => {
                    let named = match v.get("key"@) {
                        Some(k) => Some(k),
                        None => v.get("entityKey"@),
                    };
                    match named {
                        Some(k) => match k.str_of() {
                            Some(key) => entities.get(key),
                            None => None,
                        },
                        None => None,
                    }
                },
            }
        },
    }
}

pub open spec fn has_turn(acc: Seq<Json>, id: Option<Seq<char>>) -> bool {
    exists|k: int| 0 <= k < acc.len() && turn_id_model(#[trigger] acc[k]) == id
}

/// A history entry adds its turn unless the turn has no ID or is already listed.
pub open spec fn add_entry(acc: Seq<Json>, entry: Json, entities: Json) -> Seq<Json> {
    match resolve_entry(entry.get("value"@), entities) {
        Some(e) => if turn_id_model(e) is Some && !has_turn(acc, turn_id_model(e)) {
            acc.push(e)
        } else {
            acc
        },
        None => acc,
    }
}

pub open spec fn entries_fold(acc: Seq<Json>, entries: Seq<Json>, entities: Json, n: nat) -> Seq<Json>
    decreases n,
{
    if n == 0 {
        acc
    } else {
        add_entry(entries_fold(acc, entries, entities, (n - 1) as nat), entries[n - 1], entities)
    }
}

pub open spec fn islands_fold(islands: Seq<Json>, entities: Json, n: nat) -> Seq<Json>
    decreases n,
{
    if n == 0 {
        Seq::empty()
    } else {
        let acc = islands_fold(islands, entities, (n - 1) as nat);
        match islands[n - 1].get("entries"@) {
            Some(Json::Array(es)) => entries_fold(acc, es, entities, es.len()),
            _ => acc,
        }
    }
}

/// The entities that are turns, in the order listed.
pub open spec fn entity_turns(ms: Seq<(Seq<char>, Json)>, n: nat) -> Seq<Json>
    decreases n,
{
    if n == 0 {
        Seq::empty()
    } else {
        let acc = entity_turns(ms, (n - 1) as nat);
        if turn_id_model(ms[n - 1].1) is Some {
            acc.push(ms[n - 1].1)
        } else {
            acc
        }
    }
}

/// A state's turns in order: its `turns` list, else the turns its history
/// islands refer to, else every turn entity of its history.
pub open spec fn ordered_turns_model(state: Json) -> Seq<Json> {
    let listed = match state.get("turns"@) {
        Some(Json::Array(ts)) => ts,
        _ => Seq::empty(),
    };
    if listed.len() > 0 {
        listed
    } else {
        match state.at(seq!["turnHistory"@, "history"@, "entitiesByKey"@]) {
            Some(Json::Object(ms)) => {
                let found = match state.at(seq!["turnHistory"@, "history"@, "islands"@]) {
                    Some(Json::Array(isl)) => islands_fold(isl, Json::Object(ms), isl.len()),
                    _ => Seq::empty(),
                };
                if found.len() == 0 {
                    entity_turns(ms, ms.len())
                } else {
                    found
                }
            },
            _ => Seq::empty(),
        }
    }
}

pub open spec fn views_of_refs(v: Seq<&JsonValue>) -> Seq<Json> {
    v.map_values(|t: &JsonValue| t@)
}

fn listed_turn(acc: &Vec<&JsonValue>, id: &str) -> (r: bool)
    ensures
        r == has_turn(views_of_refs(acc@), Some(id@)),
{
    let ghost views = views_of_refs(acc@);
    let mut k: usize = 0;
    while k < acc.len()
        invariant
            k <= acc@.len(),
            views == views_of_refs(acc@),
            forall|q: int| 0 <= q < k ==> turn_id_model(#[trigger] views[q]) != Some(id@),
        decreases acc@.len() - k,
    {
        let same = match turn_id(acc[k]) {
            Some(t) => str_eq(t.as_str(), id),
            None => false,
        };
        if same {
            assert(turn_id_model(views[k as int]) == Some(id@));
            return true;
        }
        k = k + 1;
    }
    false
}

fn resolve<'a>(value: Option<&'a JsonValue>, entities: &'a JsonValue) -> (r: Option<&'a JsonValue>)
    ensures
        crate::json::opt_view(r) == resolve_entry(crate::json::opt_view(value), entities@),
{
    let v = match value {
        Some(v) => v,
        None => {
            return None;
        },
    };
    if turn_id(v).is_some() {
        return Some(v);
    }
    if let Some(k) = v.as_str() {
        return entities.get(k);
    }
    let named = match v.get("key") {
        Some(k) => Some(k),
        None => v.get("entityKey"),
    };
    match named {
        Some(k) => match k.as_str() {
            Some(key) => entities.get(key),
            None => None,
        },
        None => None,
    }
}

/// The turns of a Desktop state, in order.
pub fn ordered_turns(state: &JsonValue) -> (r: Vec<&JsonValue>)
    ensures
        views_of_refs(r@) == ordered_turns_model(state@),
{
    let mut out: Vec<&JsonValue> = Vec::new();
    if let Some(JsonValue::Array(ts)) = state.get("turns") {
        if ts.len() > 0 {
            let mut i: usize = 0;
            while i < ts.len()
                invariant
                    i <= ts@.len(),
                    views_of_refs(out@) == ts@.subrange(0, i as int).map_values(|t: JsonValue| t@),
                decreases ts@.len() - i,
            {
                let ghost before = out@;
                out.push(&ts[i]);
                assert(views_of_refs(out@) =~= views_of_refs(before).push(ts@[i as int]@));
                assert(ts@.subrange(0, i + 1).map_values(|t: JsonValue| t@) =~= ts@.subrange(0, i as int).map_values(
                    |t: JsonValue| t@,
                ).push(ts@[i as int]@));
                i = i + 1;
            }
            assert(ts@.subrange(0, ts@.len() as int) =~= ts@);
            assert(state@.get("turns"@) == Some(Json::Array(ts@.map_values(|t: JsonValue| t@)))) by {
                assert(ts@.map_values(|t: JsonValue| t@) =~= state@.get("turns"@)->Some_0->Array_0);
            }
            return out;
        }
    }
    proof {
        assert(views_of_refs(out@) =~= Seq::<Json>::empty());
    }
    let entities_path: [&str; 3] = ["turnHistory", "history", "entitiesByKey"];
    let islands_path: [&str; 3] = ["turnHistory", "history", "islands"];
    assert(entities_path@.map_values(|p: &str| p@) =~= seq!["turnHistory"@, "history"@, "entitiesByKey"@]);
    assert(islands_path@.map_values(|p: &str| p@) =~= seq!["turnHistory"@, "history"@, "islands"@]);
    let entities = match state.pointer(&entities_path) {
        Some(e) => e,
        None => {
            return out;
        },
    };
    let members = match entities {
        JsonValue::Object(ms) => ms,
        _ => {
            return out;
        },
    };
    let ghost ents = entities@;
    if let Some(JsonValue::Array(islands)) = state.pointer(&islands_path) {
        let ghost isl = islands@.map_values(|t: JsonValue| t@);
        assert(state@.at(seq!["turnHistory"@, "history"@, "islands"@]) == Some(Json::Array(isl))) by {
            assert(isl =~= state@.at(seq!["turnHistory"@, "history"@, "islands"@])->Some_0->Array_0);
        }
        let mut i: usize = 0;
        while i < islands.len()
            invariant
                i <= islands@.len(),
                isl == islands@.map_values(|t: JsonValue| t@),
                ents == entities@,
                views_of_refs(out@) == islands_fold(isl, ents, i as nat),
            decreases islands@.len() - i,
        {
            if let Some(JsonValue::Array(entries)) = islands[i].get("entries") {
                let ghost es = entries@.map_values(|t: JsonValue| t@);
                assert(isl[i as int].get("entries"@) == Some(Json::Array(es))) by {
                    assert(es =~= isl[i as int].get("entries"@)->Some_0->Array_0);
                }
                let ghost start = views_of_refs(out@);
                let mut j: usize = 0;
                while j < entries.len()
                    invariant
                        j <= entries@.len(),
                        es == entries@.map_values(|t: JsonValue| t@),
                        ents == entities@,
                        views_of_refs(out@) == entries_fold(start, es, ents, j as nat),
                    decreases entries@.len() - j,
                {
                    let entity = resolve(entries[j].get("value"), entities);
                    if let Some(e) = entity {
                        if let Some(id) = turn_id(e) {
                            if !listed_turn(&out, id.as_str()) {
                                let ghost before = out@;
                                out.push(e);
                                assert(views_of_refs(out@) =~= views_of_refs(before).push(e@));
                            }
                        }
                    }
                    j = j + 1;
                }
            }
            i = i + 1;
        }
        if out.len() > 0 {
            return out;
        }
    }
    let ghost ms = ents->Object_0;
    let mut k: usize = 0;
    assert(views_of_refs(out@) =~= entity_turns(ms, 0));
    while k < members.len()
        invariant
            k <= members@.len(),
            ms.len() == members@.len(),
            forall|q: int| 0 <= q < members@.len() ==> #[trigger] ms[q] == (members@[q].0@, members@[q].1@),
            views_of_refs(out@) == entity_turns(ms, k as nat),
        decreases members@.len() - k,
    {
        let candidate = &members[k].1;
        assert(ms[k as int].1 == candidate@);
        if turn_id(candidate).is_some() {
            let ghost before = out@;
            out.push(candidate);
            assert(views_of_refs(out@) =~= views_of_refs(before).push(candidate@));
        }
        k = k + 1;
    }
    out
}


/// A turn that is still under way.
pub open spec fn is_active_status(status: Option<Seq<char>>) -> bool {
    status == Some("inProgress"@) || status == Some("running"@) || status == Some("waitingApproval"@)
        || status == Some("waitingInput"@)
}

/// The last of the first `n` turns that is still under way.
pub open spec fn last_active(turns: Seq<Json>, n: nat) -> Option<int>
    decreases n,
{
    if n == 0 {
        None
    } else if is_active_status(turns[n - 1].str_at("status"@)) {
        Some(n - 1)
    } else {
        last_active(turns, (n - 1) as nat)
    }
}

/// The first of the first `n` turns with ID `id`.
pub open spec fn first_with_id(turns: Seq<Json>, id: Seq<char>, n: nat) -> Option<int>
    decreases n,
{
    if n == 0 {
        None
    } else {
        match first_with_id(turns, id, (n - 1) as nat) {
            Some(i) => Some(i),
            None => if turn_id_model(turns[n - 1]) == Some(id) {
                Some(n - 1)
            } else {
                None
            },
        }
    }
}

/// What the library reads of a Desktop task's state.
pub struct ThreadViewModel {
    pub active_turn_id: Option<Seq<char>>,
    pub agent_preview: Option<Seq<char>>,
    pub pending_request: Option<(Json, Seq<char>, Json)>,
    pub outcome: Option<(int, Seq<char>)>,
}

/// The task's turn under way and its latest agent text (else that of the last
/// turn), the approval it waits for, and how the expected turn ended.
pub open spec fn thread_view_model(state: Json, expected: Option<Seq<char>>) -> ThreadViewModel {
    let turns = ordered_turns_model(state);
    let active = last_active(turns, turns.len());
    let active_text = match active {
        Some(i) => last_agent_text_model(turns[i]),
        None => None,
    };
    ThreadViewModel {
        active_turn_id: match active {
            Some(i) => turn_id_model(turns[i]),
            None => None,
        },
        agent_preview: if active_text is Some {
            active_text
        } else if turns.len() > 0 {
            last_agent_text_model(turns.last())
        } else {
            None
        },
        pending_request: pending_request_model(state),
        outcome: match expected {
            Some(e) => match first_with_id(turns, e, turns.len()) {
                Some(i) => turn_outcome_model(turns[i]),
                None => None,
            },
            None => None,
        },
    }
}

pub open spec fn view_of_thread(v: DesktopThreadView) -> ThreadViewModel {
    ThreadViewModel {
        active_turn_id: crate::json::opt_string_view(v.active_turn_id),
        agent_preview: crate::json::opt_string_view(v.agent_preview),
        pending_request: match v.pending_request {
            Some(q) => Some(request_view(q)),
            None => None,
        },
        outcome: match v.outcome {
            Some(o) => Some(outcome_view(o)),
            None => None,
        },
    }
}

proof fn lemma_last_active_range(turns: Seq<Json>, n: nat)
    ensures
        last_active(turns, n) matches Some(i) ==> 0 <= i < n,
    decreases n,
{
    if n > 0 {
        lemma_last_active_range(turns, (n - 1) as nat);
    }
}

proof fn lemma_first_with_id_sticks(turns: Seq<Json>, id: Seq<char>, k: nat, n: nat)
    requires
        k <= n,
        first_with_id(turns, id, k) is Some,
    ensures
        first_with_id(turns, id, n) == first_with_id(turns, id, k),
    decreases n,
{
    if n > k {
        lemma_first_with_id_sticks(turns, id, k, (n - 1) as nat);
    }
}

/// Reads a Desktop task's state; `expected_turn_id` is the turn whose end is awaited.
pub fn thread_view(state: &JsonValue, expected_turn_id: Option<&str>) -> (r: DesktopThreadView)
    ensures
        view_of_thread(r) == thread_view_model(state@, crate::json::opt_str_view(expected_turn_id)),
{
    let turns = ordered_turns(state);
    let ghost tv = views_of_refs(turns@);
    let mut n = turns.len();
    let mut active: Option<usize> = None;
    while n > 0
        invariant
            n <= turns@.len(),
            tv == views_of_refs(turns@),
            active is None ==> last_active(tv, tv.len()) == last_active(tv, n as nat),
            active is Some ==> n == 0,
            active matches Some(i) ==> i < turns@.len() && last_active(tv, tv.len()) == Some(i as int),
        decreases n,
    {
        let status = turns[n - 1].str_at("status");
        let under_way = match status {
            Some(st) => str_eq(st, "inProgress") || str_eq(st, "running") || str_eq(st, "waitingApproval") || str_eq(
                st,
                "waitingInput",
            ),
            None => false,
        };
        assert(tv[n - 1] == turns@[n - 1]@);
        if under_way {
            assert(is_active_status(tv[n - 1].str_at("status"@)));
            assert(last_active(tv, n as nat) == Some(n - 1));
            active = Some(n - 1);
            n = 0;
        } else {
            n = n - 1;
        }
    }
    let (active_turn_id, active_text) = match active {
        Some(i) => {
            assert(tv[i as int] == turns@[i as int]@);
            (turn_id(turns[i]), last_agent_text(turns[i]))
        },
        None => (None, None),
    };
    let agent_preview = if active_text.is_some() {
        active_text
    } else if turns.len() > 0 {
        assert(tv.last() == turns@[turns@.len() - 1]@);
        last_agent_text(turns[turns.len() - 1])
    } else {
        None
    };
    let outcome = match expected_turn_id {
        Some(expected) => {
            let mut k: usize = 0;
            let mut found: Option<usize> = None;
            while k < turns.len()
                invariant
                    k <= turns@.len(),
                    tv == views_of_refs(turns@),
                    found is None ==> first_with_id(tv, expected@, k as nat) is None,
                    found is Some ==> k == turns@.len(),
                    found matches Some(i) ==> i < turns@.len() && first_with_id(tv, expected@, tv.len()) == Some(i as int),
                decreases turns@.len() - k,
            {
                let same = match turn_id(turns[k]) {
                    Some(t) => str_eq(t.as_str(), expected),
                    None => false,
                };
                assert(tv[k as int] == turns@[k as int]@);
                if same {
                    assert(turn_id_model(tv[k as int]) == Some(expected@));
                    assert(first_with_id(tv, expected@, (k + 1) as nat) == Some(k as int));
                    proof {
                        lemma_first_with_id_sticks(tv, expected@, (k + 1) as nat, tv.len());
                    }
                    found = Some(k);
                    k = turns.len();
                } else {
                    k = k + 1;
                }
            }
            match found {
                Some(i) => {
                    assert(tv[i as int] == turns@[i as int]@);
                    turn_outcome(turns[i])
                },
                None => None,
            }
        },
        None => None,
    };
    DesktopThreadView { active_turn_id, agent_preview, pending_request: pending_request(state), outcome }
}

} // verus!
