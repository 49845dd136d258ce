//! One pass over a Codex session log for the cost index: the session's
//! identity and fork origin, when it and each of its turns were active, and
//! one token event per model call.
use vstd::prelude::*;
use crate::dates::{read_rfc3339, rfc3339_reading};
use crate::json::{opt_str_view, opt_string_view, Json, JsonValue};
use crate::pricing::{lemma_text_lt_asymmetric, lemma_text_lt_transitive, text_le, text_less, text_lt};
use crate::usage::{latest, latest_timestamp, usage_model, CostUsageEvent, IndexedFile, IndexedTurn, RawUsage};
use vstd::string::StringSliceAdditionalSpecFns;
use vstd::utf8::encode_utf8;

verus! {

broadcast use vstd::string::group_string_axioms;

/// `needle` occurs in `haystack` starting at `i`.
pub open spec fn occurs_at(haystack: Seq<u8>, needle: Seq<u8>, i: int) -> bool {
    0 <= i && i + needle.len() <= haystack.len() && haystack.subrange(i, i + needle.len()) == needle
}

pub open spec fn contains_bytes(haystack: Seq<u8>, needle: Seq<u8>) -> bool {
    exists|i: int| occurs_at(haystack, needle, i)
}

/// `memchr::memmem::find`: the index of the first occurrence of `needle` in
/// `haystack`, or `None` when there is none.
#[verifier::external_body]
fn find_bytes(haystack: &[u8], needle: &[u8]) -> (r: Option<usize>)
    ensures
        match r {
            Some(i) => occurs_at(haystack@, needle@, i as int) && forall|j: int|
                0 <= j < i ==> !occurs_at(haystack@, needle@, j),
            None => !contains_bytes(haystack@, needle@),
        },
{
    memchr::memmem::find(haystack, needle)
}

/// The calendar date, in the machine's time zone, of an RFC 3339 timestamp.
/// It is `Some` exactly when chrono reads the text as a timestamp; which date
/// it is depends on the machine's zone and is not stated.
#[verifier::external_body]
fn local_date_of(text: &str) -> (r: Option<String>)
    ensures
        r is Some <==> rfc3339_reading(text@, 0) is Some,
{
    match chrono::DateTime::parse_from_rfc3339(text) {
        Ok(instant) => Some(instant.with_timezone(&chrono::Local).date_naive().to_string()),
        Err(_) => None,
    }
}

/// One line of a session log: its bytes, and the JSON document they hold if
/// they hold one.
#[derive(Debug)]
pub struct CostLine {
    pub bytes: Vec<u8>,
    pub entry: Option<JsonValue>,
}

/// A line is looked at only when it mentions one of the entry kinds the
/// index reads.
pub open spec fn is_relevant(bytes: Seq<u8>) -> bool {
    ||| contains_bytes(bytes, encode_utf8("session_meta"@))
    ||| contains_bytes(bytes, encode_utf8("turn_context"@))
    ||| contains_bytes(bytes, encode_utf8("token_count"@))
    ||| contains_bytes(bytes, encode_utf8("task_started"@))
    ||| contains_bytes(bytes, encode_utf8("task_complete"@))
}

/// A token event as the contracts see it; its local date is left out.
pub struct EventKey {
    pub timestamp_ms: i64,
    pub turn_id: Seq<char>,
    pub model: Seq<char>,
    pub input_tokens: u64,
    pub cached_input_tokens: u64,
    pub cache_write_input_tokens: u64,
    pub output_tokens: u64,
    pub total_tokens: u64,
}

pub open spec fn event_key(e: CostUsageEvent) -> EventKey {
    EventKey {
        timestamp_ms: e.timestamp_ms,
        turn_id: e.turn_id@,
        model: e.model@,
        input_tokens: e.input_tokens,
        cached_input_tokens: e.cached_input_tokens,
        cache_write_input_tokens: e.cache_write_input_tokens,
        output_tokens: e.output_tokens,
        total_tokens: e.total_tokens,
    }
}

/// A turn's id, start and last activity.
pub type TurnRow = (Seq<char>, Option<i64>, Option<i64>);

pub open spec fn turn_row(t: (String, IndexedTurn)) -> TurnRow {
    (t.0@, t.1.started_at_ms, t.1.updated_at_ms)
}

pub open spec fn turn_rows(v: Seq<(String, IndexedTurn)>) -> Seq<TurnRow> {
    v.map_values(|t: (String, IndexedTurn)| turn_row(t))
}

/// What the pass over a log has gathered so far.
pub struct ScanModel {
    pub malformed: nat,
    pub events: Seq<EventKey>,
    pub model: Seq<char>,
    pub previous_total: Option<RawUsage>,
    pub session_id: Option<Seq<char>>,
    pub parent_id: Option<Seq<char>>,
    pub forked_at_ms: Option<i64>,
    pub cwd: Option<Seq<char>>,
    pub started_at_ms: Option<i64>,
    pub updated_at_ms: Option<i64>,
    pub turn: Seq<char>,
    pub turns: Seq<TurnRow>,
}

pub open spec fn initial_scan() -> ScanModel {
    ScanModel {
        malformed: 0,
        events: Seq::empty(),
        model: "unknown"@,
        previous_total: None,
        session_id: None,
        parent_id: None,
        forked_at_ms: None,
        cwd: None,
        started_at_ms: None,
        updated_at_ms: None,
        turn: "unassigned"@,
        turns: Seq::empty(),
    }
}

/// The epoch milliseconds of an RFC 3339 timestamp text, if it is one.
pub open spec fn millis_of(text: Option<Seq<char>>) -> Option<i64> {
    match text {
        Some(t) => match rfc3339_reading(t, 0) {
            Some(z) => Some(z.millis),
            None => None,
        },
        None => None,
    }
}

/// The earlier of a known start and a new instant.
pub open spec fn earliest(current: Option<i64>, instant: Option<i64>) -> Option<i64> {
    match (current, instant) {
        (Some(c), Some(t)) => Some(if c <= t { c } else { t }),
        (None, Some(t)) => Some(t),
        (c, None) => c,
    }
}

pub open spec fn or_else(first: Option<i64>, second: Option<i64>) -> Option<i64> {
    if first is Some {
        first
    } else {
        second
    }
}

/// Position of the turn `key` among the first `n` rows.
pub open spec fn turn_position(turns: Seq<TurnRow>, key: Seq<char>, n: nat) -> Option<int>
    decreases n,
{
    if n == 0 {
        None
    } else {
        match turn_position(turns, key, (n - 1) as nat) {
            Some(i) => Some(i),
            None => if turns[n - 1].0 == key {
                Some(n - 1)
            } else {
                None
            },
        }
    }
}

/// The times recorded for a turn; nothing for a turn not seen yet.
pub open spec fn turn_times(turns: Seq<TurnRow>, key: Seq<char>) -> (Option<i64>, Option<i64>) {
    match turn_position(turns, key, turns.len()) {
        Some(i) => (turns[i].1, turns[i].2),
        None => (None, None),
    }
}

/// The rows with the times of turn `key` set, adding the turn if it is new.
pub open spec fn put_turn(turns: Seq<TurnRow>, key: Seq<char>, times: (Option<i64>, Option<i64>)) -> Seq<TurnRow> {
    match turn_position(turns, key, turns.len()) {
        Some(i) => turns.update(i, (key, times.0, times.1)),
        None => turns.push((key, times.0, times.1)),
    }
}

/// The session a log was forked from: `forked_from_id`, else the parent
/// thread of a sub-agent spawn; an empty id counts as none.
pub open spec fn parent_of(payload: Json) -> Option<Seq<char>> {
    let named = match payload.str_at("forked_from_id"@) {
        Some(id) => Some(id),
        None => match payload.at(
            seq!["source"@, "subagent"@, "thread_spawn"@, "parent_thread_id"@],
        ) {
            Some(v) => v.str_of(),
            None => None,
        },
    };
    match named {
        Some(id) => if id.len() > 0 {
            Some(id)
        } else {
            None
        },
        None => None,
    }
}

pub open spec fn usage_member(v: Json, key: Seq<char>) -> Option<RawUsage> {
    match v.get(key) {
        Some(u) => usage_model(u),
        None => None,
    }
}

/// The same running total as far as input, cached input, output and total go.
pub open spec fn same_total(a: RawUsage, b: RawUsage) -> bool {
    a.input_tokens == b.input_tokens && a.cached_input_tokens == b.cached_input_tokens
        && a.output_tokens == b.output_tokens && a.total_tokens == b.total_tokens
}

/// The usage of one call from a running total and the previous one.
pub open spec fn growth_since(total: RawUsage, previous: Option<RawUsage>) -> RawUsage {
    match previous {
        Some(p) => RawUsage {
            input_tokens: crate::usage::difference(total.input_tokens, p.input_tokens),
            cached_input_tokens: crate::usage::difference(total.cached_input_tokens, p.cached_input_tokens),
            cache_write_input_tokens: crate::usage::difference(total.cache_write_input_tokens, p.cache_write_input_tokens),
            output_tokens: crate::usage::difference(total.output_tokens, p.output_tokens),
            total_tokens: crate::usage::difference(total.total_tokens, p.total_tokens),
        },
        None => total,
    }
}

/// A `token_count` entry: the usage of one call, unless it repeats the last
/// running total or used nothing; a timestamp that is not RFC 3339 makes the
/// line malformed.
pub open spec fn token_step(s: ScanModel, entry: Json, payload: Json) -> ScanModel {
    match payload.get("info"@) {
        None => s,
        Some(info) => if !info.is_object() {
            s
        } else {
            let total = usage_member(info, "total_token_usage"@);
            if total is Some && s.previous_total is Some && same_total(s.previous_total->0, total->0) {
                s
            } else {
                let usage = match usage_member(info, "last_token_usage"@) {
                    Some(u) => Some(u),
                    None => match total {
                        Some(t) => Some(growth_since(t, s.previous_total)),
                        None => None,
                    },
                };
                let s = if total is Some {
                    ScanModel { previous_total: total, ..s }
                } else {
                    s
                };
                match usage {
                    None => s,
                    Some(u) => if u.input_tokens == 0 && u.cached_input_tokens == 0 && u.output_tokens == 0 {
                        s
                    } else {
                        match entry.str_at("timestamp"@) {
                            None => s,
                            Some(t) => match rfc3339_reading(t, 0) {
                                None => ScanModel { malformed: s.malformed + 1, ..s },
                                Some(z) => ScanModel {
                                    events: s.events.push(
                                        EventKey {
                                            timestamp_ms: z.millis,
                                            turn_id: s.turn,
                                            model: match info.str_at("model"@) {
                                                Some(m) => m,
                                                None => s.model,
                                            },
                                            input_tokens: u.input_tokens,
                                            cached_input_tokens: if u.cached_input_tokens <= u.input_tokens {
                                                u.cached_input_tokens
                                            } else {
                                                u.input_tokens
                                            },
                                            cache_write_input_tokens: u.cache_write_input_tokens,
                                            output_tokens: u.output_tokens,
                                            total_tokens: u.total_tokens,
                                        },
                                    ),
                                    ..s
                                },
                            },
                        }
                    },
                }
            }
        },
    }
}

/// One JSON entry of a log.
pub open spec fn scan_entry(s: ScanModel, entry: Json) -> ScanModel {
    let payload = match entry.get("payload"@) {
        Some(p) => p,
        None => Json::Null,
    };
    let entry_type = match entry.str_at("type"@) {
        Some(t) => t,
        None => Seq::empty(),
    };
    let payload_type = match payload.str_at("type"@) {
        Some(t) => t,
        None => Seq::empty(),
    };
    let ts = millis_of(entry.str_at("timestamp"@));
    let s = ScanModel { started_at_ms: earliest(s.started_at_ms, ts), updated_at_ms: latest(s.updated_at_ms, ts), ..s };
    if entry_type == "session_meta"@ {
        let s = if s.session_id is None {
            ScanModel { session_id: payload.str_at("id"@), parent_id: parent_of(payload), forked_at_ms: ts, ..s }
        } else {
            s
        };
        ScanModel {
            cwd: if s.cwd is Some {
                s.cwd
            } else {
                payload.str_at("cwd"@)
            },
            ..s
        }
    } else if entry_type == "turn_context"@ {
        let s = match payload.str_at("model"@) {
            Some(m) => ScanModel { model: m, ..s },
            None => s,
        };
        match payload.str_at("turn_id"@) {
            Some(id) => {
                let old = turn_times(s.turns, id);
                ScanModel { turn: id, turns: put_turn(s.turns, id, (or_else(old.0, ts), latest(old.1, ts))), ..s }
            },
            None => s,
        }
    } else if entry_type == "event_msg"@ && payload_type == "task_started"@ {
        match payload.str_at("turn_id"@) {
            Some(id) => {
                let old = turn_times(s.turns, id);
                let started = or_else(or_else(millis_of(payload.str_at("started_at"@)), old.0), ts);
                ScanModel { turn: id, turns: put_turn(s.turns, id, (started, latest(old.1, ts))), ..s }
            },
            None => s,
        }
    } else if entry_type == "event_msg"@ && payload_type == "task_complete"@ {
        match payload.str_at("turn_id"@) {
            Some(id) => {
                let old = turn_times(s.turns, id);
                let updated = or_else(or_else(millis_of(payload.str_at("completed_at"@)), ts), old.1);
                ScanModel { turns: put_turn(s.turns, id, (old.0, updated)), ..s }
            },
            None => s,
        }
    } else if entry_type != "event_msg"@ || payload_type != "token_count"@ {
        s
    } else {
        token_step(s, entry, payload)
    }
}

/// One line of a log: lines that mention no entry kind the index reads are
/// passed over; such a line that is not JSON is malformed.
pub open spec fn scan_line(s: ScanModel, line: CostLine) -> ScanModel {
    if !is_relevant(line.bytes@) {
        s
    } else {
        match line.entry {
            None => ScanModel { malformed: s.malformed + 1, ..s },
            Some(v) => scan_entry(s, v@),
        }
    }
}

pub open spec fn scan_after(lines: Seq<CostLine>, n: nat) -> ScanModel
    decreases n,
{
    if n == 0 {
        initial_scan()
    } else {
        scan_line(scan_after(lines, (n - 1) as nat), lines[n - 1])
    }
}


/// The pass's state as the code keeps it.
struct CostScan {
    malformed: usize,
    events: Vec<CostUsageEvent>,
    model: String,
    previous_total: Option<RawUsage>,
    session_id: Option<String>,
    parent_id: Option<String>,
    forked_at_ms: Option<i64>,
    cwd: Option<String>,
    started_at_ms: Option<i64>,
    updated_at_ms: Option<i64>,
    turn: String,
    turns: Vec<(String, IndexedTurn)>,
}

pub open spec fn event_keys(v: Seq<CostUsageEvent>) -> Seq<EventKey> {
    v.map_values(|e: CostUsageEvent| event_key(e))
}

spec fn scan_view(s: CostScan) -> ScanModel {
    ScanModel {
        malformed: s.malformed as nat,
        events: event_keys(s.events@),
        model: s.model@,
        previous_total: s.previous_total,
        session_id: opt_string_view(s.session_id),
        parent_id: opt_string_view(s.parent_id),
        forked_at_ms: s.forked_at_ms,
        cwd: opt_string_view(s.cwd),
        started_at_ms: s.started_at_ms,
        updated_at_ms: s.updated_at_ms,
        turn: s.turn@,
        turns: turn_rows(s.turns@),
    }
}

fn relevant(bytes: &[u8]) -> (r: bool)
    ensures
        r == is_relevant(bytes@),
{
    find_bytes(bytes, "session_meta".as_bytes()).is_some() || find_bytes(bytes, "turn_context".as_bytes()).is_some()
        || find_bytes(bytes, "token_count".as_bytes()).is_some() || find_bytes(bytes, "task_started".as_bytes()).is_some()
        || find_bytes(bytes, "task_complete".as_bytes()).is_some()
}

fn millis(text: Option<&str>) -> (r: Option<i64>)
    ensures
        r == millis_of(opt_str_view(text)),
{
    match text {
        Some(t) => match read_rfc3339(t, 0) {
            Some(z) => Some(z.millis),
            None => None,
        },
        None => None,
    }
}

fn earliest_of(current: Option<i64>, instant: Option<i64>) -> (r: Option<i64>)
    ensures
        r == earliest(current, instant),
{
    match (current, instant) {
        (Some(c), Some(t)) => Some(if c <= t { c } else { t }),
        (None, Some(t)) => Some(t),
        (c, None) => c,
    }
}

fn first_of(first: Option<i64>, second: Option<i64>) -> (r: Option<i64>)
    ensures
        r == or_else(first, second),
{
    if first.is_some() {
        first
    } else {
        second
    }
}

fn text_of(value: Option<&str>) -> (r: String)
    ensures
        r@ == match opt_str_view(value) {
            Some(t) => t,
            None => Seq::<char>::empty(),
        },
{
    match value {
        Some(t) => t.to_owned(),
        None => String::new(),
    }
}

fn owned_text(value: Option<&str>) -> (r: Option<String>)
    ensures
        opt_string_view(r) == opt_str_view(value),
{
    match value {
        Some(t) => Some(t.to_owned()),
        None => None,
    }
}

proof fn lemma_turn_position_range(turns: Seq<TurnRow>, key: Seq<char>, n: nat)
    ensures
        turn_position(turns, key, n) matches Some(i) ==> 0 <= i < n && turns[i].0 == key,
    decreases n,
{
    if n > 0 {
        lemma_turn_position_range(turns, key, (n - 1) as nat);
    }
}

proof fn lemma_turn_position_sticks(turns: Seq<TurnRow>, key: Seq<char>, k: nat, n: nat)
    requires
        k <= n,
        turn_position(turns, key, k) is Some,
    ensures
        turn_position(turns, key, n) == turn_position(turns, key, k),
    decreases n,
{
    if n > k {
        lemma_turn_position_sticks(turns, key, k, (n - 1) as nat);
    }
}

fn find_turn(turns: &Vec<(String, IndexedTurn)>, key: &str) -> (r: Option<usize>)
    ensures
        match r {
            Some(i) => i < turns@.len() && turn_position(turn_rows(turns@), key@, turns@.len()) == Some(i as int),
            None => turn_position(turn_rows(turns@), key@, turns@.len()) is None,
        },
{
    let ghost rows = turn_rows(turns@);
    let mut i: usize = 0;
    while i < turns.len()
        invariant
            i <= turns@.len(),
            rows == turn_rows(turns@),
            turn_position(rows, key@, i as nat) is None,
        decreases turns@.len() - i,
    {
        if crate::text::str_eq(turns[i].0.as_str(), key) {
            assert(rows[i as int].0 == key@);
            proof {
                lemma_turn_position_sticks(rows, key@, (i + 1) as nat, turns@.len());
            }
            return Some(i);
        }
        i = i + 1;
    }
    None
}

fn times_of(turns: &Vec<(String, IndexedTurn)>, key: &str) -> (r: (Option<i64>, Option<i64>))
    ensures
        r == turn_times(turn_rows(turns@), key@),
{
    match find_turn(turns, key) {
        Some(i) => (turns[i].1.started_at_ms, turns[i].1.updated_at_ms),
        None => (None, None),
    }
}

fn set_turn(turns: &mut Vec<(String, IndexedTurn)>, key: &str, started_at_ms: Option<i64>, updated_at_ms: Option<i64>)
    ensures
        turn_rows(final(turns)@) == put_turn(turn_rows(old(turns)@), key@, (started_at_ms, updated_at_ms)),
{
    let row = (key.to_owned(), IndexedTurn { started_at_ms, updated_at_ms });
    let ghost before = turns@;
    match find_turn(turns, key) {
        Some(i) => {
            turns.set(i, row);
            assert(turn_rows(turns@) =~= turn_rows(before).update(i as int, (key@, started_at_ms, updated_at_ms)));
        },
        None => {
            turns.push(row);
            assert(turn_rows(turns@) =~= turn_rows(before).push((key@, started_at_ms, updated_at_ms)));
        },
    }
}

fn parent_id_of(payload: &JsonValue) -> (r: Option<String>)
    ensures
        opt_string_view(r) == parent_of(payload@),
{
    let named = match payload.str_at("forked_from_id") {
        Some(id) => Some(id),
        None => {
            let path: [&str; 4] = ["source", "subagent", "thread_spawn", "parent_thread_id"];
            assert(path@.map_values(|p: &str| p@) =~= seq!["source"@, "subagent"@, "thread_spawn"@, "parent_thread_id"@]);
            match payload.pointer(&path) {
                Some(v) => v.as_str(),
                None => None,
            }
        },
    };
    match named {
        Some(id) => if !id.is_empty() {
            Some(id.to_owned())
        } else {
            None
        },
        None => None,
    }
}

fn usage_member_of(info: &JsonValue, key: &str) -> (r: Option<RawUsage>)
    ensures
        r == usage_member(info@, key@),
{
    match info.get(key) {
        Some(u) => crate::usage::parse_usage(u),
        None => None,
    }
}

fn token_step_exec(st: &mut CostScan, entry: &JsonValue, payload: &JsonValue)
    requires
        old(st).malformed < usize::MAX,
    ensures
        scan_view(*final(st)) == token_step(scan_view(*old(st)), entry@, payload@),
{
    let info = match payload.get("info") {
        Some(i) => i,
        None => {
            return;
        },
    };
    if !info.is_object() {
        return;
    }
    let total = usage_member_of(info, "total_token_usage");
    let repeated = match (&total, &st.previous_total) {
        (Some(t), Some(p)) => p.input_tokens == t.input_tokens && p.cached_input_tokens == t.cached_input_tokens
            && p.output_tokens == t.output_tokens && p.total_tokens == t.total_tokens,
        _ => false,
    };
    if repeated {
        return;
    }
    let usage = match usage_member_of(info, "last_token_usage") {
        Some(u) => Some(u),
        None => match &total {
            Some(t) => Some(t.subtract(st.previous_total.as_ref())),
            None => None,
        },
    };
    if total.is_some() {
        st.previous_total = total;
    }
    let usage = match usage {
        Some(u) => u,
        None => {
            return;
        },
    };
    if usage.input_tokens == 0 && usage.cached_input_tokens == 0 && usage.output_tokens == 0 {
        return;
    }
    let timestamp = match entry.str_at("timestamp") {
        Some(t) => t,
        None => {
            return;
        },
    };
    let instant = match read_rfc3339(timestamp, 0) {
        Some(z) => z,
        None => {
            st.malformed = st.malformed + 1;
            return;
        },
    };
    let date = match local_date_of(timestamp) {
        Some(d) => d,
        None => String::new(),
    };
    let model = match info.str_at("model") {
        Some(m) => m.to_owned(),
        None => st.model.clone(),
    };
    let ghost before = st.events@;
    let event = CostUsageEvent {
        timestamp_ms: instant.millis,
        date,
        turn_id: st.turn.clone(),
        model,
        input_tokens: usage.input_tokens,
        cached_input_tokens: if usage.cached_input_tokens <= usage.input_tokens {
            usage.cached_input_tokens
        } else {
            usage.input_tokens
        },
        cache_write_input_tokens: usage.cache_write_input_tokens,
        output_tokens: usage.output_tokens,
        total_tokens: usage.total_tokens,
    };
    st.events.push(event);
    assert(event_keys(st.events@) =~= event_keys(before).push(event_key(event)));
}

fn scan_entry_exec(st: &mut CostScan, entry: &JsonValue)
    requires
        old(st).malformed < usize::MAX,
    ensures
        scan_view(*final(st)) == scan_entry(scan_view(*old(st)), entry@),
{
    let null = JsonValue::Null;
    let payload = match entry.get("payload") {
        Some(p) => p,
        None => &null,
    };
    let entry_type = text_of(entry.str_at("type"));
    let payload_type = text_of(payload.str_at("type"));
    let ts = millis(entry.str_at("timestamp"));
    st.started_at_ms = earliest_of(st.started_at_ms, ts);
    st.updated_at_ms = latest_timestamp(st.updated_at_ms, ts);
    if crate::text::str_eq(entry_type.as_str(), "session_meta") {
        if st.session_id.is_none() {
            st.session_id = owned_text(payload.str_at("id"));
            st.parent_id = parent_id_of(payload);
            st.forked_at_ms = ts;
        }
        if st.cwd.is_none() {
            st.cwd = owned_text(payload.str_at("cwd"));
        }
        return;
    }
    if crate::text::str_eq(entry_type.as_str(), "turn_context") {
        if let Some(m) = payload.str_at("model") {
            st.model = m.to_owned();
        }
        if let Some(id) = payload.str_at("turn_id") {
            let old = times_of(&st.turns, id);
            st.turn = id.to_owned();
            set_turn(&mut st.turns, id, first_of(old.0, ts), latest_timestamp(old.1, ts));
        }
        return;
    }
    let is_event = crate::text::str_eq(entry_type.as_str(), "event_msg");
    if is_event && crate::text::str_eq(payload_type.as_str(), "task_started") {
        if let Some(id) = payload.str_at("turn_id") {
            let old = times_of(&st.turns, id);
            let started = first_of(first_of(millis(payload.str_at("started_at")), old.0), ts);
            st.turn = id.to_owned();
            set_turn(&mut st.turns, id, started, latest_timestamp(old.1, ts));
        }
        return;
    }
    if is_event && crate::text::str_eq(payload_type.as_str(), "task_complete") {
        if let Some(id) = payload.str_at("turn_id") {
            let old = times_of(&st.turns, id);
            let updated = first_of(first_of(millis(payload.str_at("completed_at")), ts), old.1);
            set_turn(&mut st.turns, id, old.0, updated);
        }
        return;
    }
    if !is_event || !crate::text::str_eq(payload_type.as_str(), "token_count") {
        return;
    }
    token_step_exec(st, entry, payload);
}


/// Turns in the order of their ids.
pub open spec fn turns_sorted(v: Seq<(String, IndexedTurn)>) -> bool {
    forall|i: int, j: int| 0 <= i < j < v.len() ==> text_le(#[trigger] v[i].0@, #[trigger] v[j].0@)
}

/// Orders turns by id, moving them.
fn sort_turns(items: Vec<(String, IndexedTurn)>) -> (r: Vec<(String, IndexedTurn)>)
    ensures
        turns_sorted(r@),
        turn_rows(r@).to_multiset() == turn_rows(items@).to_multiset(),
{
    let mut rest = items;
    let mut out: Vec<(String, IndexedTurn)> = Vec::new();
    proof {
        broadcast use vstd::multiset::group_multiset_axioms;
        vstd::seq_lib::to_multiset_len(turn_rows(out@));
        vstd::multiset::lemma_multiset_empty_len(turn_rows(out@).to_multiset());
        assert(turn_rows(out@).to_multiset().add(turn_rows(rest@).to_multiset()) =~= turn_rows(items@).to_multiset());
    }
    while rest.len() > 0
        invariant
            turns_sorted(out@),
            turn_rows(out@).to_multiset().add(turn_rows(rest@).to_multiset()) == turn_rows(items@).to_multiset(),
        decreases rest@.len(),
    {
        let ghost before = rest@;
        let ghost out_before = out@;
        let x = rest.pop().unwrap();
        assert(turn_rows(before) =~= turn_rows(rest@).push(turn_row(x)));
        let mut p: usize = 0;
        loop
            invariant
                p <= out@.len(),
                forall|k: int| 0 <= k < p ==> !text_lt(x.0@, #[trigger] out@[k].0@),
            ensures
                p <= out@.len(),
                forall|k: int| 0 <= k < p ==> !text_lt(x.0@, #[trigger] out@[k].0@),
                p < out@.len() ==> text_lt(x.0@, out@[p as int].0@),
            decreases out@.len() - p,
        {
            if p >= out.len() {
                break;
            }
            if text_less(x.0.as_str(), out[p].0.as_str()) {
                break;
            }
            p = p + 1;
        }
        let ghost old_out = out@;
        let ghost xv = turn_row(x);
        let ghost xk = x.0@;
        out.insert(p, x);
        assert(turn_rows(out@) =~= turn_rows(old_out).insert(p as int, xv));
        proof {
            broadcast use vstd::multiset::group_multiset_axioms;
            vstd::seq_lib::to_multiset_build(turn_rows(rest@), xv);
            vstd::seq_lib::to_multiset_insert(turn_rows(old_out), p as int, xv);
            assert(turn_rows(out@).to_multiset().add(turn_rows(rest@).to_multiset()) =~= turn_rows(
                out_before,
            ).to_multiset().add(turn_rows(before).to_multiset()));
        }
        assert forall|i: int, j: int| 0 <= i < j < out@.len() implies text_le(
            #[trigger] out@[i].0@,
            #[trigger] out@[j].0@,
        ) by {
            if i < p && j == p {
            } else if i == p && j > p {
                let y = old_out[j - 1].0@;
                lemma_text_lt_asymmetric(xk, old_out[p as int].0@);
                if text_lt(y, xk) {
                    lemma_text_lt_transitive(y, xk, old_out[p as int].0@);
                    if j - 1 == p {
                        lemma_text_lt_asymmetric(y, y);
                    } else {
                        assert(text_le(old_out[p as int].0@, old_out[j - 1].0@));
                    }
                }
            } else if i < p && j > p {
                assert(text_le(old_out[i].0@, old_out[j - 1].0@));
            } else if i > p {
                assert(text_le(old_out[i - 1].0@, old_out[j - 1].0@));
            } else {
                assert(text_le(old_out[i].0@, old_out[j].0@));
            }
        }
    }
    proof {
        broadcast use vstd::multiset::group_multiset_axioms;
        vstd::seq_lib::to_multiset_len(turn_rows(rest@));
        vstd::multiset::lemma_multiset_empty_len(turn_rows(rest@).to_multiset());
        assert(turn_rows(out@).to_multiset().add(turn_rows(rest@).to_multiset()) =~= turn_rows(out@).to_multiset());
    }
    out
}

/// Reads one session log for the cost index. `length` and `modified_ms`
/// identify the version of the file that was read.
pub fn parse_cost_file(lines: &Vec<CostLine>, length: u64, modified_ms: u128) -> (r: IndexedFile)
    ensures
        ({
            let s = scan_after(lines@, lines@.len());
            &&& r.length == length
            &&& r.modified_ms == modified_ms
            &&& r.malformed_lines == s.malformed
            &&& opt_string_view(r.session_id) == s.session_id
            &&& opt_string_view(r.parent_id) == s.parent_id
            &&& r.forked_at_ms == s.forked_at_ms
            &&& opt_string_view(r.cwd) == s.cwd
            &&& r.started_at_ms == s.started_at_ms
            &&& r.updated_at_ms == s.updated_at_ms
            &&& r.project_metadata_indexed
            &&& event_keys(r.events@) == s.events
            &&& turns_sorted(r.turns@)
            &&& turn_rows(r.turns@).to_multiset() == s.turns.to_multiset()
        }),
{
    let mut st = CostScan {
        malformed: 0,
        events: Vec::new(),
        model: "unknown".to_owned(),
        previous_total: None,
        session_id: None,
        parent_id: None,
        forked_at_ms: None,
        cwd: None,
        started_at_ms: None,
        updated_at_ms: None,
        turn: "unassigned".to_owned(),
        turns: Vec::new(),
    };
    assert(event_keys(st.events@) =~= Seq::empty());
    assert(turn_rows(st.turns@) =~= Seq::empty());
    let mut i: usize = 0;
    while i < lines.len()
        invariant
            i <= lines@.len(),
            st.malformed <= i,
            scan_view(st) == scan_after(lines@, i as nat),
        decreases lines@.len() - i,
    {
        let line = &lines[i];
        if relevant(line.bytes.as_slice()) {
            match &line.entry {
                None => {
                    st.malformed = st.malformed + 1;
                },
                Some(entry) => {
                    scan_entry_exec(&mut st, entry);
                },
            }
        }
        i = i + 1;
    }
    let CostScan {
        malformed,
        events,
        model: _,
        previous_total: _,
        session_id,
        parent_id,
        forked_at_ms,
        cwd,
        started_at_ms,
        updated_at_ms,
        turn: _,
        turns,
    } = st;
    IndexedFile {
        length,
        modified_ms,
        malformed_lines: malformed as u64,
        session_id,
        parent_id,
        forked_at_ms,
        cwd,
        started_at_ms,
        updated_at_ms,
        turns: sort_turns(turns),
        project_metadata_indexed: true,
        events,
    }
}

} // verus!
