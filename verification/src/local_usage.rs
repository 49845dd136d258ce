//! Today's token usage read from Codex session logs: the token counts of one
//! log entry, and the pass over a log that turns cumulative snapshots into
//! one event per model call.
use vstd::prelude::*;
use crate::dates::{read_rfc3339, rfc3339_reading};
use crate::json::{opt_string_view, Json, JsonValue};
use crate::pricing::{
    estimate_standard_api_cost_at, estimate_spec, event_day, lemma_text_lt_total,
    lemma_text_lt_transitive, pricing_rates_ok, text_less, text_lt, ActivePricing, CostBreakdown,
};
use crate::text::trim_spec;

verus! {

broadcast use vstd::string::group_string_axioms;

/// Token counts of one model call, or a running total of them.
#[derive(Debug, Clone, Copy, PartialEq, Eq, Structural)]
pub struct TokenUsage {
    pub input_tokens: u64,
    pub cached_input_tokens: u64,
    pub cache_write_input_tokens: u64,
    pub output_tokens: u64,
    pub reasoning_output_tokens: u64,
    pub total_tokens: u64,
}

pub open spec fn zero_usage() -> TokenUsage {
    TokenUsage {
        input_tokens: 0,
        cached_input_tokens: 0,
        cache_write_input_tokens: 0,
        output_tokens: 0,
        reasoning_output_tokens: 0,
        total_tokens: 0,
    }
}

/// `a + b` per count, each capped at `u64::MAX`.
pub open spec fn sum_usage(a: TokenUsage, b: TokenUsage) -> TokenUsage {
    TokenUsage {
        input_tokens: a.input_tokens.saturating_add(b.input_tokens),
        cached_input_tokens: a.cached_input_tokens.saturating_add(b.cached_input_tokens),
        cache_write_input_tokens: a.cache_write_input_tokens.saturating_add(b.cache_write_input_tokens),
        output_tokens: a.output_tokens.saturating_add(b.output_tokens),
        reasoning_output_tokens: a.reasoning_output_tokens.saturating_add(b.reasoning_output_tokens),
        total_tokens: a.total_tokens.saturating_add(b.total_tokens),
    }
}

/// Growth of a count since an earlier snapshot; a count that went down was
/// reset, and the whole current value is new.
pub open spec fn growth(current: u64, old: u64) -> u64 {
    if current >= old {
        (current - old) as u64
    } else {
        current
    }
}

/// What a total snapshot adds to an earlier one (to nothing, if none).
pub open spec fn difference(current: TokenUsage, previous: Option<TokenUsage>) -> TokenUsage {
    let p = match previous {
        Some(p) => p,
        None => zero_usage(),
    };
    TokenUsage {
        input_tokens: growth(current.input_tokens, p.input_tokens),
        cached_input_tokens: growth(current.cached_input_tokens, p.cached_input_tokens),
        cache_write_input_tokens: growth(current.cache_write_input_tokens, p.cache_write_input_tokens),
        output_tokens: growth(current.output_tokens, p.output_tokens),
        reasoning_output_tokens: growth(current.reasoning_output_tokens, p.reasoning_output_tokens),
        total_tokens: growth(current.total_tokens, p.total_tokens),
    }
}

fn grown(current: u64, old: u64) -> (r: u64)
    ensures
        r == growth(current, old),
{
    if current >= old {
        current - old
    } else {
        current
    }
}

impl TokenUsage {
    /// No tokens.
    pub fn zero() -> (r: TokenUsage)
        ensures
            r == zero_usage(),
    {
        TokenUsage {
            input_tokens: 0,
            cached_input_tokens: 0,
            cache_write_input_tokens: 0,
            output_tokens: 0,
            reasoning_output_tokens: 0,
            total_tokens: 0,
        }
    }

    /// Adds `other` to these counts, each sum capped at `u64::MAX`.
    pub fn add(&mut self, other: &Self)
        ensures
            *final(self) == sum_usage(*old(self), *other),
    {
        self.input_tokens = self.input_tokens.saturating_add(other.input_tokens);
        self.cached_input_tokens = self.cached_input_tokens.saturating_add(other.cached_input_tokens);
        self.cache_write_input_tokens = self.cache_write_input_tokens.saturating_add(other.cache_write_input_tokens);
        self.output_tokens = self.output_tokens.saturating_add(other.output_tokens);
        self.reasoning_output_tokens = self.reasoning_output_tokens.saturating_add(other.reasoning_output_tokens);
        self.total_tokens = self.total_tokens.saturating_add(other.total_tokens);
    }

    /// What these totals add to an earlier snapshot.
    pub fn subtract(&self, previous: Option<&Self>) -> (r: TokenUsage)
        ensures
            r == difference(
                *self,
                match previous {
                    Some(p) => Some(*p),
                    None => None,
                },
            ),
    {
        let p = match previous {
            Some(p) => *p,
            None => TokenUsage::zero(),
        };
        TokenUsage {
            input_tokens: grown(self.input_tokens, p.input_tokens),
            cached_input_tokens: grown(self.cached_input_tokens, p.cached_input_tokens),
            cache_write_input_tokens: grown(self.cache_write_input_tokens, p.cache_write_input_tokens),
            output_tokens: grown(self.output_tokens, p.output_tokens),
            reasoning_output_tokens: grown(self.reasoning_output_tokens, p.reasoning_output_tokens),
            total_tokens: grown(self.total_tokens, p.total_tokens),
        }
    }
}

/// Adding what a snapshot grew by to the earlier snapshot gives the snapshot
/// back, for every count that did not go down.
pub proof fn law_subtract_then_add_restores(current: TokenUsage, previous: TokenUsage)
    requires
        current.input_tokens >= previous.input_tokens,
        current.cached_input_tokens >= previous.cached_input_tokens,
        current.cache_write_input_tokens >= previous.cache_write_input_tokens,
        current.output_tokens >= previous.output_tokens,
        current.reasoning_output_tokens >= previous.reasoning_output_tokens,
        current.total_tokens >= previous.total_tokens,
    ensures
        sum_usage(previous, difference(current, Some(previous))) == current,
{
}

/// A count of a usage object: the unsigned integer member `key`, else 0.
pub open spec fn count_of(v: Json, key: Seq<char>) -> u64 {
    match v.get(key) {
        Some(n) => match n.u64_of() {
            Some(k) => k,
            None => 0,
        },
        None => 0,
    }
}

/// The counts of a usage object; cached input never exceeds input, and a
/// missing or zero total is input plus output.
pub open spec fn usage_of(v: Json) -> Option<TokenUsage> {
    if !v.is_object() {
        None
    } else {
        let input = count_of(v, "input_tokens"@);
        let output = count_of(v, "output_tokens"@);
        let reported = count_of(v, "total_tokens"@);
        let cached = count_of(v, "cached_input_tokens"@);
        Some(
            TokenUsage {
                input_tokens: input,
                cached_input_tokens: if cached <= input { cached } else { input },
                cache_write_input_tokens: count_of(v, "cache_write_input_tokens"@),
                output_tokens: output,
                reasoning_output_tokens: count_of(v, "reasoning_output_tokens"@),
                total_tokens: if reported == 0 { input.saturating_add(output) } else { reported },
            },
        )
    }
}

fn read_count(value: &JsonValue, key: &str) -> (r: u64)
    ensures
        r == count_of(value@, key@),
{
    match value.get(key) {
        Some(n) => match n.as_u64() {
            Some(k) => k,
            None => 0,
        },
        None => 0,
    }
}

/// Reads the token counts of a usage object.
pub fn parse_usage(value: &JsonValue) -> (r: Option<TokenUsage>)
    ensures
        r == usage_of(value@),
{
    if !value.is_object() {
        return None;
    }
    let input_tokens = read_count(value, "input_tokens");
    let output_tokens = read_count(value, "output_tokens");
    let reported_total = read_count(value, "total_tokens");
    let cached = read_count(value, "cached_input_tokens");
    Some(TokenUsage {
        input_tokens,
        cached_input_tokens: if cached <= input_tokens { cached } else { input_tokens },
        cache_write_input_tokens: read_count(value, "cache_write_input_tokens"),
        output_tokens,
        reasoning_output_tokens: read_count(value, "reasoning_output_tokens"),
        total_tokens: if reported_total == 0 {
            input_tokens.saturating_add(output_tokens)
        } else {
            reported_total
        },
    })
}


/// One line of a session log: unreadable, or its text together with the JSON
/// document the text holds, if it holds one.
#[derive(Debug)]
pub enum LogLine {
    Unreadable,
    Text(String, Option<JsonValue>),
}

/// One model call counted for today.
#[derive(Debug)]
pub struct UsageEvent {
    pub timestamp_ms: i64,
    pub timestamp: String,
    pub model: String,
    pub usage: TokenUsage,
}

/// The events of one log and how many of its lines could not be read.
#[derive(Debug)]
pub struct ParsedLog {
    pub events: Vec<UsageEvent>,
    pub malformed_lines: usize,
}

/// What the pass over a log remembers: the last total snapshot and the model
/// the last turn context named.
pub struct LogState {
    pub previous_total: Option<TokenUsage>,
    pub model: Seq<char>,
}

pub struct EventModel {
    pub timestamp_ms: i64,
    pub timestamp: Seq<char>,
    pub model: Seq<char>,
    pub usage: TokenUsage,
}

pub enum LineOutcome {
    Skip,
    Malformed,
    Event(EventModel),
}

pub open spec fn event_view(e: UsageEvent) -> EventModel {
    EventModel { timestamp_ms: e.timestamp_ms, timestamp: e.timestamp@, model: e.model@, usage: e.usage }
}

pub open spec fn initial_state() -> LogState {
    LogState { previous_total: None, model: "unknown"@ }
}

/// A call that used no input, cached input, output or reasoning tokens.
pub open spec fn is_empty_usage(u: TokenUsage) -> bool {
    u.input_tokens == 0 && u.cached_input_tokens == 0 && u.output_tokens == 0 && u.reasoning_output_tokens == 0
}

pub open spec fn usage_member(v: Json, key: Seq<char>) -> Option<TokenUsage> {
    match v.get(key) {
        Some(u) => usage_of(u),
        None => None,
    }
}

/// The calendar day `(year, month, day)` an instant falls on in its zone.
pub open spec fn day_of(year: i32, month: u32, day: u32) -> (i32, u32, u32) {
    (year, month, day)
}

/// What a token-count entry yields once its new usage is known.
pub open spec fn dated_event(
    entry: Json,
    info: Json,
    model: Seq<char>,
    usage: TokenUsage,
    today: (i32, u32, u32),
    offset_seconds: int,
) -> LineOutcome {
    match entry.str_at("timestamp"@) {
        None => LineOutcome::Skip,
        Some(ts) => match rfc3339_reading(ts, offset_seconds) {
            None => LineOutcome::Skip,
            Some(z) => if day_of(z.year, z.month, z.day) != today {
                LineOutcome::Skip
            } else {
                LineOutcome::Event(
                    EventModel {
                        timestamp_ms: z.millis,
                        timestamp: ts,
                        model: match info.str_at("model"@) {
                            Some(m) => m,
                            None => model,
                        },
                        usage,
                    },
                )
            },
        },
    }
}

/// One JSON entry of a log: a turn context names the model; a token count
/// yields the tokens of one call (its last usage, else the growth of its
/// total), unless it repeats the previous total, used no tokens, or was not
/// made today in the given zone.
pub open spec fn entry_step(state: LogState, entry: Json, today: (i32, u32, u32), offset_seconds: int) -> (LogState, LineOutcome) {
    let payload = match entry.get("payload"@) {
        Some(p) => p,
        None => Json::Null,
    };
    if entry.str_at("type"@) == Some("turn_context"@) {
        (
            match payload.str_at("model"@) {
                Some(m) => LogState { previous_total: state.previous_total, model: m },
                None => state,
            },
            LineOutcome::Skip,
        )
    } else if entry.str_at("type"@) != Some("event_msg"@) || payload.str_at("type"@) != Some("token_count"@) {
        (state, LineOutcome::Skip)
    } else {
        match payload.get("info"@) {
            None => (state, LineOutcome::Skip),
            Some(info) => if !info.is_object() {
                (state, LineOutcome::Skip)
            } else {
                let total = usage_member(info, "total_token_usage"@);
                if total is Some && state.previous_total == total {
                    (state, LineOutcome::Skip)
                } else {
                    let usage = match usage_member(info, "last_token_usage"@) {
                        Some(u) => Some(u),
                        None => match total {
                            Some(t) => Some(difference(t, state.previous_total)),
                            None => None,
                        },
                    };
                    let next = if total is Some {
                        LogState { previous_total: total, model: state.model }
                    } else {
                        state
                    };
                    match usage {
                        None => (next, LineOutcome::Skip),
                        Some(u) => if is_empty_usage(u) {
                            (next, LineOutcome::Skip)
                        } else {
                            (next, dated_event(entry, info, state.model, u, today, offset_seconds))
                        },
                    }
                }
            },
        }
    }
}

/// One line of a log: unreadable lines and lines that are not JSON are
/// malformed; blank lines are skipped.
pub open spec fn line_step(state: LogState, line: LogLine, today: (i32, u32, u32), offset_seconds: int) -> (LogState, LineOutcome) {
    match line {
        LogLine::Unreadable => (state, LineOutcome::Malformed),
        LogLine::Text(text, parsed) => if trim_spec(text@).len() == 0 {
            (state, LineOutcome::Skip)
        } else {
            match parsed {
                None => (state, LineOutcome::Malformed),
                Some(v) => entry_step(state, v@, today, offset_seconds),
            }
        },
    }
}

pub open spec fn state_after(lines: Seq<LogLine>, n: nat, today: (i32, u32, u32), offset_seconds: int) -> LogState
    decreases n,
{
    if n == 0 {
        initial_state()
    } else {
        line_step(state_after(lines, (n - 1) as nat, today, offset_seconds), lines[n - 1], today, offset_seconds).0
    }
}

pub open spec fn outcome_at(lines: Seq<LogLine>, n: nat, today: (i32, u32, u32), offset_seconds: int) -> LineOutcome
    recommends
        n > 0,
{
    line_step(state_after(lines, (n - 1) as nat, today, offset_seconds), lines[n - 1], today, offset_seconds).1
}

/// The events of the first `n` lines.
pub open spec fn events_after(lines: Seq<LogLine>, n: nat, today: (i32, u32, u32), offset_seconds: int) -> Seq<EventModel>
    decreases n,
{
    if n == 0 {
        Seq::empty()
    } else {
        let before = events_after(lines, (n - 1) as nat, today, offset_seconds);
        match outcome_at(lines, n, today, offset_seconds) {
            LineOutcome::Event(e) => before.push(e),
            _ => before,
        }
    }
}

/// The malformed lines among the first `n`.
pub open spec fn malformed_after(lines: Seq<LogLine>, n: nat, today: (i32, u32, u32), offset_seconds: int) -> nat
    decreases n,
{
    if n == 0 {
        0
    } else {
        malformed_after(lines, (n - 1) as nat, today, offset_seconds) + if outcome_at(lines, n, today, offset_seconds) is Malformed {
            1nat
        } else {
            0nat
        }
    }
}

fn usage_member_of(info: &JsonValue, key: &str) -> (r: Option<TokenUsage>)
    ensures
        r == usage_member(info@, key@),
{
    match info.get(key) {
        Some(u) => parse_usage(u),
        None => None,
    }
}

fn is_empty(u: &TokenUsage) -> (r: bool)
    ensures
        r == is_empty_usage(*u),
{
    u.input_tokens == 0 && u.cached_input_tokens == 0 && u.output_tokens == 0 && u.reasoning_output_tokens == 0
}

/// Exec state of the pass: the last total and the current model.
struct Pass {
    previous_total: Option<TokenUsage>,
    model: String,
}

spec fn pass_view(p: Pass) -> LogState {
    LogState { previous_total: p.previous_total, model: p.model@ }
}

fn text_is(value: Option<&str>, expected: &str) -> (r: bool)
    ensures
        r == (crate::json::opt_str_view(value) == Some(expected@)),
{
    match value {
        Some(v) => crate::text::str_eq(v, expected),
        None => false,
    }
}

fn dated(
    entry: &JsonValue,
    info: &JsonValue,
    model: &str,
    usage: TokenUsage,
    today: (i32, u32, u32),
    offset_seconds: i32,
) -> (r: Option<UsageEvent>)
    requires
        -86_400 < offset_seconds < 86_400,
    ensures
        match dated_event(entry@, info@, model@, usage, today, offset_seconds as int) {
            LineOutcome::Event(e) => r matches Some(x) && event_view(x) == e,
            _ => r is None,
        },
{
    let ts = match entry.str_at("timestamp") {
        Some(t) => t,
        None => {
            return None;
        },
    };
    let z = match read_rfc3339(ts, offset_seconds) {
        Some(z) => z,
        None => {
            return None;
        },
    };
    if z.year != today.0 || z.month != today.1 || z.day != today.2 {
        return None;
    }
    let chosen = match info.str_at("model") {
        Some(m) => m.to_owned(),
        None => model.to_owned(),
    };
    Some(UsageEvent { timestamp_ms: z.millis, timestamp: ts.to_owned(), model: chosen, usage })
}

fn step_entry(pass: &mut Pass, entry: &JsonValue, today: (i32, u32, u32), offset_seconds: i32) -> (r: Option<UsageEvent>)
    requires
        -86_400 < offset_seconds < 86_400,
    ensures
        pass_view(*final(pass)) == entry_step(pass_view(*old(pass)), entry@, today, offset_seconds as int).0,
        match entry_step(pass_view(*old(pass)), entry@, today, offset_seconds as int).1 {
            LineOutcome::Event(e) => r matches Some(x) && event_view(x) == e,
            _ => r is None,
        },
{
    let null = JsonValue::Null;
    let payload = match entry.get("payload") {
        Some(p) => p,
        None => &null,
    };
    let kind = entry.str_at("type");
    if text_is(kind, "turn_context") {
        if let Some(m) = payload.str_at("model") {
            pass.model = m.to_owned();
        }
        return None;
    }
    if !text_is(kind, "event_msg") || !text_is(payload.str_at("type"), "token_count") {
        return None;
    }
    let info = match payload.get("info") {
        Some(i) => i,
        None => {
            return None;
        },
    };
    if !info.is_object() {
        return None;
    }
    let total = usage_member_of(info, "total_token_usage");
    let repeated = match (&total, &pass.previous_total) {
        (Some(t), Some(p)) => *t == *p,
        _ => false,
    };
    if repeated {
        return None;
    }
    let usage = match usage_member_of(info, "last_token_usage") {
        Some(u) => Some(u),
        None => match &total {
            Some(t) => Some(t.subtract(pass.previous_total.as_ref())),
            None => None,
        },
    };
    if total.is_some() {
        pass.previous_total = total;
    }
    let usage = match usage {
        Some(u) => u,
        None => {
            return None;
        },
    };
    if is_empty(&usage) {
        return None;
    }
    dated(entry, info, pass.model.as_str(), usage, today, offset_seconds)
}

/// Reads the usage events of one session log: `today` is the calendar day in
/// the zone `offset_seconds` east of UTC.
pub fn parse_log(lines: &Vec<LogLine>, today: (i32, u32, u32), offset_seconds: i32) -> (r: ParsedLog)
    requires
        -86_400 < offset_seconds < 86_400,
    ensures
        r.events@.map_values(|e: UsageEvent| event_view(e)) == events_after(lines@, lines@.len(), today, offset_seconds as int),
        r.malformed_lines == malformed_after(lines@, lines@.len(), today, offset_seconds as int),
{
    let mut pass = Pass { previous_total: None, model: "unknown".to_owned() };
    let mut events: Vec<UsageEvent> = Vec::new();
    let mut malformed: usize = 0;
    let mut i: usize = 0;
    while i < lines.len()
        invariant
            i <= lines@.len(),
            -86_400 < offset_seconds < 86_400,
            pass_view(pass) == state_after(lines@, i as nat, today, offset_seconds as int),
            events@.map_values(|e: UsageEvent| event_view(e)) == events_after(lines@, i as nat, today, offset_seconds as int),
            malformed == malformed_after(lines@, i as nat, today, offset_seconds as int),
            malformed <= i,
        decreases lines@.len() - i,
    {
        let ghost before = events@;
        match &lines[i] {
            LogLine::Unreadable => {
                malformed = malformed + 1;
            },
            LogLine::Text(text, parsed) => {
                if !crate::text::str_trim(text.as_str()).is_empty() {
                    match parsed {
                        None => {
                            malformed = malformed + 1;
                        },
                        Some(entry) => {
                            if let Some(event) = step_entry(&mut pass, entry, today, offset_seconds) {
                                events.push(event);
                                assert(events@.map_values(|e: UsageEvent| event_view(e)) =~= before.map_values(
                                    |e: UsageEvent| event_view(e),
                                ).push(event_view(event)));
                            }
                        },
                    }
                }
            },
        }
        i = i + 1;
    }
    ParsedLog { events, malformed_lines: malformed }
}


/// Cost sums over many events, in units of 10^-12 USD, each capped at `u128::MAX`.
#[derive(Debug, Clone, Copy, PartialEq, Eq, Structural)]
pub struct CostTotals {
    pub uncached_input: u128,
    pub cached_input: u128,
    pub output: u128,
    pub total: u128,
    pub cache_savings: u128,
}

pub open spec fn no_cost() -> CostTotals {
    CostTotals { uncached_input: 0, cached_input: 0, output: 0, total: 0, cache_savings: 0 }
}

pub open spec fn add_cost(t: CostTotals, c: CostBreakdown) -> CostTotals {
    CostTotals {
        uncached_input: t.uncached_input.saturating_add(c.uncached_input),
        cached_input: t.cached_input.saturating_add(c.cached_input),
        output: t.output.saturating_add(c.output),
        total: t.total.saturating_add(c.total),
        cache_savings: t.cache_savings.saturating_add(c.cache_savings),
    }
}

/// Today's usage over all logs.
#[derive(Debug)]
pub struct TodaySummary {
    pub usage: TokenUsage,
    pub uncached_input_tokens: u64,
    pub token_events: usize,
    pub duplicate_events_skipped: usize,
    pub malformed_lines_skipped: usize,
    pub latest_event_at: Option<String>,
    pub cost: CostTotals,
    pub priced_tokens: u64,
    pub unpriced_tokens: u64,
    pub models: Vec<String>,
}

/// Two events are the same call when they agree on instant, model and counts.
pub open spec fn same_call(a: EventModel, b: EventModel) -> bool {
    a.timestamp_ms == b.timestamp_ms && a.model == b.model && a.usage == b.usage
}

/// What the summary has gathered after some events.
pub struct SummaryModel {
    pub seen: Seq<EventModel>,
    pub usage: TokenUsage,
    pub token_events: usize,
    pub duplicates: usize,
    pub latest: Option<(i64, Seq<char>)>,
    pub cost: CostTotals,
    pub priced_tokens: u64,
    pub unpriced_tokens: u64,
    pub models: Set<Seq<char>>,
}

pub open spec fn empty_summary() -> SummaryModel {
    SummaryModel {
        seen: Seq::empty(),
        usage: zero_usage(),
        token_events: 0,
        duplicates: 0,
        latest: None,
        cost: no_cost(),
        priced_tokens: 0,
        unpriced_tokens: 0,
        models: Set::empty(),
    }
}

/// Adds one event: a repeat of a call already seen only counts as a
/// duplicate; a new call adds its tokens, its model, its cost when the model
/// has a rate (else its tokens count as unpriced), and becomes the latest
/// event when it is strictly later than the latest so far.
pub open spec fn summary_step(m: SummaryModel, e: EventModel, active: ActivePricing, today: Seq<char>) -> SummaryModel {
    if exists|k: int| 0 <= k < m.seen.len() && same_call(#[trigger] m.seen[k], e) {
        SummaryModel { duplicates: m.duplicates.saturating_add(1), ..m }
    } else {
        let estimate = estimate_spec(
            active.versions@,
            e.model,
            e.usage.input_tokens,
            e.usage.cached_input_tokens,
            e.usage.output_tokens,
            event_day(e.timestamp_ms, today),
        );
        SummaryModel {
            seen: m.seen.push(e),
            usage: sum_usage(m.usage, e.usage),
            token_events: m.token_events.saturating_add(1),
            duplicates: m.duplicates,
            latest: match m.latest {
                Some((t, _)) => if e.timestamp_ms > t {
                    Some((e.timestamp_ms, e.timestamp))
                } else {
                    m.latest
                },
                None => Some((e.timestamp_ms, e.timestamp)),
            },
            cost: match estimate {
                Some(c) => add_cost(m.cost, c),
                None => m.cost,
            },
            priced_tokens: if estimate is Some {
                m.priced_tokens.saturating_add(e.usage.total_tokens)
            } else {
                m.priced_tokens
            },
            unpriced_tokens: if estimate is Some {
                m.unpriced_tokens
            } else {
                m.unpriced_tokens.saturating_add(e.usage.total_tokens)
            },
            models: m.models.insert(e.model),
        }
    }
}

pub open spec fn log_events(log: ParsedLog) -> Seq<EventModel> {
    log.events@.map_values(|e: UsageEvent| event_view(e))
}

/// `m` after the first `n` of `events`, in order.
pub open spec fn fold_events(m: SummaryModel, events: Seq<EventModel>, n: nat, active: ActivePricing, today: Seq<char>) -> SummaryModel
    decreases n,
{
    if n == 0 {
        m
    } else {
        summary_step(fold_events(m, events, (n - 1) as nat, active, today), events[n - 1], active, today)
    }
}

/// The summary of the events of the first `n` logs, log after log.
pub open spec fn fold_logs(logs: Seq<ParsedLog>, n: nat, active: ActivePricing, today: Seq<char>) -> SummaryModel
    decreases n,
{
    if n == 0 {
        empty_summary()
    } else {
        let events = log_events(logs[n - 1]);
        fold_events(fold_logs(logs, (n - 1) as nat, active, today), events, events.len(), active, today)
    }
}

/// The malformed lines of the first `n` logs, the sum capped at `usize::MAX`.
pub open spec fn malformed_sum(logs: Seq<ParsedLog>, n: nat) -> usize
    decreases n,
{
    if n == 0 {
        0
    } else {
        malformed_sum(logs, (n - 1) as nat).saturating_add(logs[n - 1].malformed_lines)
    }
}

/// Texts in strictly increasing order.
pub open spec fn strictly_sorted(v: Seq<String>) -> bool {
    forall|i: int, j: int| 0 <= i < j < v.len() ==> text_lt(#[trigger] v[i]@, #[trigger] v[j]@)
}

pub open spec fn text_set(v: Seq<String>) -> Set<Seq<char>> {
    Set::new(|t: Seq<char>| exists|i: int| 0 <= i < v.len() && (#[trigger] v[i])@ == t)
}

/// Adds `name` to a strictly sorted list of names unless it is there.
pub fn insert_name(names: &mut Vec<String>, name: &str)
    requires
        strictly_sorted(old(names)@),
    ensures
        strictly_sorted(final(names)@),
        text_set(final(names)@) == text_set(old(names)@).insert(name@),
{
    let mut p: usize = 0;
    loop
        invariant
            p <= names@.len(),
            strictly_sorted(names@),
            forall|k: int| 0 <= k < p ==> text_lt(#[trigger] names@[k]@, name@),
        ensures
            p <= names@.len(),
            forall|k: int| 0 <= k < p ==> text_lt(#[trigger] names@[k]@, name@),
            p < names@.len() ==> !text_lt(names@[p as int]@, name@),
        decreases names@.len() - p,
    {
        if p >= names.len() {
            break;
        }
        if !text_less(names[p].as_str(), name) {
            break;
        }
        p = p + 1;
    }
    let ghost before = names@;
    if p < names.len() && crate::text::str_eq(names[p].as_str(), name) {
        assert(text_set(names@) =~= text_set(before).insert(name@));
        return;
    }
    proof {
        if p < names@.len() {
            lemma_text_lt_total(names@[p as int]@, name@);
        }
    }
    names.insert(p, name.to_owned());
    assert forall|t: Seq<char>| text_set(names@).contains(t) <==> text_set(before).insert(name@).contains(t) by {
        if text_set(names@).contains(t) {
            let i = choose|i: int| 0 <= i < names@.len() && (#[trigger] names@[i])@ == t;
            if i < p {
                assert(names@[i] == before[i]);
            } else if i > p {
                assert(names@[i] == before[i - 1]);
            }
        }
        if text_set(before).contains(t) {
            let i = choose|i: int| 0 <= i < before.len() && (#[trigger] before[i])@ == t;
            if i < p {
                assert(names@[i] == before[i]);
            } else {
                assert(names@[i + 1] == before[i]);
            }
        }
        if t == name@ {
            assert(names@[p as int]@ == name@);
        }
    }
    assert(text_set(names@) =~= text_set(before).insert(name@));
    assert forall|i: int, j: int| 0 <= i < j < names@.len() implies text_lt(#[trigger] names@[i]@, #[trigger] names@[j]@) by {
        if j == p as int {
        } else if i == p as int {
            assert(names@[j] == before[j - 1]);
            if j - 1 > p {
                lemma_text_lt_transitive(name@, before[p as int]@, before[j - 1]@);
            }
        } else if i < p && j > p {
            assert(text_lt(before[i]@, before[j - 1]@));
        } else if i > p {
            assert(text_lt(before[i - 1]@, before[j - 1]@));
        }
    }
}


/// The summary as the code keeps it.
struct Tally<'a> {
    seen: Vec<&'a UsageEvent>,
    usage: TokenUsage,
    token_events: usize,
    duplicates: usize,
    latest: Option<(i64, String)>,
    cost: CostTotals,
    priced_tokens: u64,
    unpriced_tokens: u64,
    models: Vec<String>,
}

spec fn tally_view(t: Tally) -> SummaryModel {
    SummaryModel {
        seen: t.seen@.map_values(|e: &UsageEvent| event_view(*e)),
        usage: t.usage,
        token_events: t.token_events,
        duplicates: t.duplicates,
        latest: match t.latest {
            Some((ms, ts)) => Some((ms, ts@)),
            None => None,
        },
        cost: t.cost,
        priced_tokens: t.priced_tokens,
        unpriced_tokens: t.unpriced_tokens,
        models: text_set(t.models@),
    }
}

fn add_costs(t: CostTotals, c: CostBreakdown) -> (r: CostTotals)
    ensures
        r == add_cost(t, c),
{
    CostTotals {
        uncached_input: t.uncached_input.saturating_add(c.uncached_input),
        cached_input: t.cached_input.saturating_add(c.cached_input),
        output: t.output.saturating_add(c.output),
        total: t.total.saturating_add(c.total),
        cache_savings: t.cache_savings.saturating_add(c.cache_savings),
    }
}

fn tally_event<'a>(t: &mut Tally<'a>, e: &'a UsageEvent, active: &ActivePricing, today: &str)
    requires
        pricing_rates_ok(active.versions@),
        strictly_sorted(old(t).models@),
    ensures
        strictly_sorted(final(t).models@),
        tally_view(*final(t)) == summary_step(tally_view(*old(t)), event_view(*e), *active, today@),
{
    let ghost seen_views = t.seen@.map_values(|x: &UsageEvent| event_view(*x));
    let mut k: usize = 0;
    while k < t.seen.len()
        invariant
            k <= t.seen@.len(),
            *t == *old(t),
            strictly_sorted(t.models@),
            pricing_rates_ok(active.versions@),
            seen_views == t.seen@.map_values(|x: &UsageEvent| event_view(*x)),
            forall|q: int| 0 <= q < k ==> !same_call(#[trigger] seen_views[q], event_view(*e)),
        decreases t.seen@.len() - k,
    {
        let s = t.seen[k];
        if s.timestamp_ms == e.timestamp_ms && crate::text::str_eq(s.model.as_str(), e.model.as_str()) && s.usage == e.usage {
            assert(same_call(seen_views[k as int], event_view(*e)));
            t.duplicates = t.duplicates.saturating_add(1);
            return;
        }
        k = k + 1;
    }
    let estimate = estimate_standard_api_cost_at(
        active,
        e.model.as_str(),
        e.usage.input_tokens,
        e.usage.cached_input_tokens,
        e.usage.output_tokens,
        e.timestamp_ms,
        today,
    );
    match estimate {
        Some(c) => {
            t.cost = add_costs(t.cost, c);
            t.priced_tokens = t.priced_tokens.saturating_add(e.usage.total_tokens);
        },
        None => {
            t.unpriced_tokens = t.unpriced_tokens.saturating_add(e.usage.total_tokens);
        },
    }
    t.usage.add(&e.usage);
    t.token_events = t.token_events.saturating_add(1);
    let later = match &t.latest {
        Some((ms, _)) => e.timestamp_ms > *ms,
        None => true,
    };
    if later {
        t.latest = Some((e.timestamp_ms, e.timestamp.clone()));
    }
    insert_name(&mut t.models, e.model.as_str());
    let ghost before = t.seen@;
    t.seen.push(e);
    assert(t.seen@.map_values(|x: &UsageEvent| event_view(*x)) =~= seen_views.push(event_view(*e)));
}

/// Today's usage over the logs read, log after log: each call counted once,
/// its cost at the rates in force on its day.
pub fn summarize_today(logs: &Vec<ParsedLog>, active: &ActivePricing, today: &str) -> (r: TodaySummary)
    requires
        pricing_rates_ok(active.versions@),
    ensures
        ({
            let m = fold_logs(logs@, logs@.len(), *active, today@);
            &&& r.usage == m.usage
            &&& r.uncached_input_tokens == m.usage.input_tokens.saturating_sub(m.usage.cached_input_tokens)
            &&& r.token_events == m.token_events
            &&& r.duplicate_events_skipped == m.duplicates
            &&& r.malformed_lines_skipped == malformed_sum(logs@, logs@.len())
            &&& opt_string_view(r.latest_event_at) == match m.latest {
                Some((_, ts)) => Some(ts),
                None => None,
            }
            &&& r.cost == m.cost
            &&& r.priced_tokens == m.priced_tokens
            &&& r.unpriced_tokens == m.unpriced_tokens
            &&& strictly_sorted(r.models@)
            &&& text_set(r.models@) == m.models
        }),
{
    let mut t = Tally {
        seen: Vec::new(),
        usage: TokenUsage::zero(),
        token_events: 0,
        duplicates: 0,
        latest: None,
        cost: CostTotals { uncached_input: 0, cached_input: 0, output: 0, total: 0, cache_savings: 0 },
        priced_tokens: 0,
        unpriced_tokens: 0,
        models: Vec::new(),
    };
    assert(t.seen@.map_values(|x: &UsageEvent| event_view(*x)) =~= Seq::<EventModel>::empty());
    assert(text_set(t.models@) =~= Set::<Seq<char>>::empty());
    let mut malformed: usize = 0;
    let mut i: usize = 0;
    while i < logs.len()
        invariant
            i <= logs@.len(),
            pricing_rates_ok(active.versions@),
            strictly_sorted(t.models@),
            tally_view(t) == fold_logs(logs@, i as nat, *active, today@),
            malformed == malformed_sum(logs@, i as nat),
        decreases logs@.len() - i,
    {
        let log = &logs[i];
        let ghost start = tally_view(t);
        let ghost events = log_events(*log);
        let mut j: usize = 0;
        while j < log.events.len()
            invariant
                j <= log.events@.len(),
                *log == logs@[i as int],
                events == log_events(*log),
                pricing_rates_ok(active.versions@),
                strictly_sorted(t.models@),
                tally_view(t) == fold_events(start, events, j as nat, *active, today@),
            decreases log.events@.len() - j,
        {
            assert(events[j as int] == event_view(log.events@[j as int]));
            tally_event(&mut t, &log.events[j], active, today);
            j = j + 1;
        }
        malformed = malformed.saturating_add(log.malformed_lines);
        i = i + 1;
    }
    let Tally { seen: _, usage, token_events, duplicates, latest, cost, priced_tokens, unpriced_tokens, models } = t;
    TodaySummary {
        usage,
        uncached_input_tokens: usage.input_tokens.saturating_sub(usage.cached_input_tokens),
        token_events,
        duplicate_events_skipped: duplicates,
        malformed_lines_skipped: malformed,
        latest_event_at: match latest {
            Some((_, ts)) => Some(ts),
            None => None,
        },
        cost,
        priced_tokens,
        unpriced_tokens,
        models,
    }
}

} // verus!
