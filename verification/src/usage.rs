//! Token usage read from Codex session logs: the events each log contributes,
//! and the rule that keeps usage replayed into a forked session from counting
//! twice.
use vstd::prelude::*;
use crate::json::{Json, JsonValue};
use crate::text::str_eq;

verus! {

broadcast use vstd::string::group_string_axioms;

/// One token-count event of a session.
#[derive(Debug)]
pub struct CostUsageEvent {
    pub timestamp_ms: i64,
    pub date: String,
    pub turn_id: String,
    pub model: String,
    pub input_tokens: u64,
    pub cached_input_tokens: u64,
    pub cache_write_input_tokens: u64,
    pub output_tokens: u64,
    pub total_tokens: u64,
}

/// When a turn started and was last active.
#[derive(Debug)]
pub struct IndexedTurn {
    pub started_at_ms: Option<i64>,
    pub updated_at_ms: Option<i64>,
}

/// What one session log contributes, as the cost index keeps it.
#[derive(Debug)]
pub struct IndexedFile {
    pub length: u64,
    pub modified_ms: u128,
    pub malformed_lines: u64,
    pub session_id: Option<String>,
    pub parent_id: Option<String>,
    pub forked_at_ms: Option<i64>,
    pub cwd: Option<String>,
    pub started_at_ms: Option<i64>,
    pub updated_at_ms: Option<i64>,
    pub turns: Vec<(String, IndexedTurn)>,
    pub project_metadata_indexed: bool,
    pub events: Vec<CostUsageEvent>,
}

/// Token counts as a log reports them.
#[derive(Debug)]
pub struct RawUsage {
    pub input_tokens: u64,
    pub cached_input_tokens: u64,
    pub cache_write_input_tokens: u64,
    pub output_tokens: u64,
    pub total_tokens: u64,
}

/// The turn events are filed under when a log names none.
pub fn default_turn_id() -> (r: String)
    ensures
        r@ == "unassigned"@,
{
    "unassigned".to_owned()
}

pub open spec fn difference(current: u64, old: u64) -> u64 {
    if current >= old {
        (current - old) as u64
    } else {
        current
    }
}

fn diff(current: u64, old: u64) -> (r: u64)
    ensures
        r == difference(current, old),
{
    if current >= old {
        current - old
    } else {
        current
    }
}

impl RawUsage {
    /// The usage since `previous` (a running total), field by field; a field
    /// that went down counts as a fresh start.
    pub fn subtract(&self, previous: Option<&RawUsage>) -> (r: RawUsage)
        ensures
            match previous {
                Some(p) => {
                    &&& r.input_tokens == difference(self.input_tokens, p.input_tokens)
                    &&& r.cached_input_tokens == difference(self.cached_input_tokens, p.cached_input_tokens)
                    &&& r.cache_write_input_tokens == difference(self.cache_write_input_tokens, p.cache_write_input_tokens)
                    &&& r.output_tokens == difference(self.output_tokens, p.output_tokens)
                    &&& r.total_tokens == difference(self.total_tokens, p.total_tokens)
                },
                None => r == *self,
            },
    {
        match previous {
            Some(p) => RawUsage {
                input_tokens: diff(self.input_tokens, p.input_tokens),
                cached_input_tokens: diff(self.cached_input_tokens, p.cached_input_tokens),
                cache_write_input_tokens: diff(self.cache_write_input_tokens, p.cache_write_input_tokens),
                output_tokens: diff(self.output_tokens, p.output_tokens),
                total_tokens: diff(self.total_tokens, p.total_tokens),
            },
            None => RawUsage {
                input_tokens: self.input_tokens,
                cached_input_tokens: self.cached_input_tokens,
                cache_write_input_tokens: self.cache_write_input_tokens,
                output_tokens: self.output_tokens,
                total_tokens: self.total_tokens,
            },
        }
    }
}

/// Subtracting a running total from a later one that grew in every field gives
/// back exactly the growth.
pub proof fn law_subtract_gives_growth(total: RawUsage, previous: RawUsage, growth: RawUsage)
    requires
        previous.input_tokens + growth.input_tokens == total.input_tokens,
        previous.cached_input_tokens + growth.cached_input_tokens == total.cached_input_tokens,
        previous.cache_write_input_tokens + growth.cache_write_input_tokens
            == total.cache_write_input_tokens,
        previous.output_tokens + growth.output_tokens == total.output_tokens,
        previous.total_tokens + growth.total_tokens == total.total_tokens,
    ensures
        difference(total.input_tokens, previous.input_tokens) == growth.input_tokens,
        difference(total.cached_input_tokens, previous.cached_input_tokens)
            == growth.cached_input_tokens,
        difference(total.cache_write_input_tokens, previous.cache_write_input_tokens)
            == growth.cache_write_input_tokens,
        difference(total.output_tokens, previous.output_tokens) == growth.output_tokens,
        difference(total.total_tokens, previous.total_tokens) == growth.total_tokens,
{
}

/// An unsigned member, zero when absent or not an unsigned integer.
pub open spec fn count_at(v: Json, key: Seq<char>) -> u64 {
    match v.get(key) {
        Some(n) => match n.u64_of() {
            Some(x) => x,
            None => 0,
        },
        None => 0,
    }
}

/// The usage an object reports; a total of zero is recomputed from input and output.
pub open spec fn usage_model(v: Json) -> Option<RawUsage> {
    if !v.is_object() {
        None
    } else {
        let input = count_at(v, "input_tokens"@);
        let output = count_at(v, "output_tokens"@);
        let reported = count_at(v, "total_tokens"@);
        Some(
            RawUsage {
                input_tokens: input,
                cached_input_tokens: count_at(v, "cached_input_tokens"@),
                cache_write_input_tokens: count_at(v, "cache_write_input_tokens"@),
                output_tokens: output,
                total_tokens: if reported == 0 {
                    if input + output > u64::MAX {
                        u64::MAX
                    } else {
                        (input + output) as u64
                    }
                } else {
                    reported
                },
            },
        )
    }
}

fn count_of(v: &JsonValue, key: &str) -> (r: u64)
    ensures
        r == count_at(v@, key@),
{
    match v.get(key) {
        Some(n) => match n.as_u64() {
            Some(x) => x,
            None => 0,
        },
        None => 0,
    }
}

/// Reads a token usage object from a `token_count` event.
pub fn parse_usage(value: &JsonValue) -> (r: Option<RawUsage>)
    ensures
        r == usage_model(value@),
{
    if !value.is_object() {
        return None;
    }
    let input = count_of(value, "input_tokens");
    let output = count_of(value, "output_tokens");
    let reported = count_of(value, "total_tokens");
    Some(
        RawUsage {
            input_tokens: input,
            cached_input_tokens: count_of(value, "cached_input_tokens"),
            cache_write_input_tokens: count_of(value, "cache_write_input_tokens"),
            output_tokens: output,
            total_tokens: if reported == 0 {
                input.saturating_add(output)
            } else {
                reported
            },
        },
    )
}

/// Two events that report the same token counts.
pub open spec fn same_usage_spec(left: CostUsageEvent, right: CostUsageEvent) -> bool {
    &&& left.input_tokens == right.input_tokens
    &&& left.cached_input_tokens == right.cached_input_tokens
    &&& left.output_tokens == right.output_tokens
    &&& left.total_tokens == right.total_tokens
}

pub fn same_usage(left: &CostUsageEvent, right: &CostUsageEvent) -> (r: bool)
    ensures
        r == same_usage_spec(*left, *right),
{
    left.input_tokens == right.input_tokens && left.cached_input_tokens == right.cached_input_tokens
        && left.output_tokens == right.output_tokens && left.total_tokens == right.total_tokens
}

/// The whole second (rounded down) an instant falls in.
pub open spec fn second_of(timestamp_ms: i64) -> int {
    (timestamp_ms as int) / 1000
}

fn second_of_exec(timestamp_ms: i64) -> (r: i64)
    ensures
        r == second_of(timestamp_ms),
{
    let q = timestamp_ms / 1000;
    let r = timestamp_ms % 1000;
    if r < 0 {
        q - 1
    } else {
        q
    }
}

/// How many leading events share the first event's second.
pub open spec fn same_second_run(events: Seq<CostUsageEvent>, second: int, n: int) -> int
    decreases n,
{
    if n <= 0 {
        0
    } else if same_second_run(events, second, n - 1) == n - 1 && second_of(events[n - 1].timestamp_ms) == second {
        n
    } else {
        same_second_run(events, second, n - 1)
    }
}

/// When a fork's parent log is gone, a fork is recognised by its first two
/// events falling in the same second (Codex rewrites the replayed history at
/// once); that leading run is skipped.
pub open spec fn rewritten_len(events: Seq<CostUsageEvent>) -> int {
    if events.len() < 2 {
        0
    } else if second_of(events[1].timestamp_ms) != second_of(events[0].timestamp_ms) {
        0
    } else {
        same_second_run(events, second_of(events[0].timestamp_ms), events.len() as int)
    }
}

/// The length of the leading run of events written in the same second as the
/// first, when at least two are.
pub fn rewritten_first_second_len(events: &[CostUsageEvent]) -> (r: usize)
    ensures
        r == rewritten_len(events@),
{
    if events.len() < 2 {
        return 0;
    }
    let first = second_of_exec(events[0].timestamp_ms);
    if second_of_exec(events[1].timestamp_ms) != first {
        return 0;
    }
    let mut n: usize = 0;
    while n < events.len()
        invariant
            n <= events@.len(),
            first == second_of(events@[0].timestamp_ms),
            events@.len() >= 2,
            second_of(events@[1].timestamp_ms) == first,
            same_second_run(events@, first as int, n as int) == n,
        decreases events@.len() - n,
    {
        if second_of_exec(events[n].timestamp_ms) != first {
            proof {
                lemma_run_stops(events@, first as int, n as int, events@.len() as int);
            }
            return n;
        }
        n = n + 1;
    }
    n
}

proof fn lemma_run_stops(events: Seq<CostUsageEvent>, second: int, n: int, m: int)
    requires
        0 <= n < m <= events.len(),
        same_second_run(events, second, n) == n,
        second_of(events[n].timestamp_ms) != second,
    ensures
        same_second_run(events, second, m) == n,
    decreases m - n,
{
    if m > n + 1 {
        lemma_run_stops(events, second, n, m - 1);
    }
}

/// The parent events a fork may have replayed: those up to the fork instant.
pub open spec fn parent_prefix(parent: Seq<CostUsageEvent>, forked_at: Option<i64>, n: int) -> int
    decreases n,
{
    if n <= 0 {
        0
    } else if parent_prefix(parent, forked_at, n - 1) == n - 1 && match forked_at {
        Some(f) => parent[n - 1].timestamp_ms <= f,
        None => true,
    } {
        n
    } else {
        parent_prefix(parent, forked_at, n - 1)
    }
}

/// How many of the child's first `n` events repeat the parent's, in order.
pub open spec fn matched_prefix(child: Seq<CostUsageEvent>, parent: Seq<CostUsageEvent>, limit: int, n: int) -> int
    decreases n,
{
    if n <= 0 {
        0
    } else {
        let m = matched_prefix(child, parent, limit, n - 1);
        if m == n - 1 && m < limit && same_usage_spec(parent[m], child[n - 1]) {
            n
        } else {
            m
        }
    }
}

/// How many leading events of a forked session repeat its parent's usage and
/// must not be counted again. `parent` is the parent's log when it is known.
/// Without a match against the parent, a rewritten first second is skipped.
pub open spec fn replayed_len(child: IndexedFile, parent: Option<IndexedFile>) -> int {
    if child.parent_id is None {
        0
    } else {
        let limit = match parent {
            Some(p) => parent_prefix(p.events@, child.forked_at_ms, p.events@.len() as int),
            None => 0,
        };
        let parent_events = match parent {
            Some(p) => p.events@,
            None => Seq::empty(),
        };
        let m = matched_prefix(child.events@, parent_events, limit, child.events@.len() as int);
        if child.events@.len() == 0 {
            0
        } else if m > 0 {
            m
        } else {
            rewritten_len(child.events@)
        }
    }
}

proof fn lemma_parent_prefix_bound(parent: Seq<CostUsageEvent>, forked_at: Option<i64>, n: int)
    requires
        0 <= n,
    ensures
        0 <= parent_prefix(parent, forked_at, n) <= n,
    decreases n,
{
    if n > 0 {
        lemma_parent_prefix_bound(parent, forked_at, n - 1);
    }
}

fn parent_prefix_len(parent: &IndexedFile, forked_at: Option<i64>) -> (r: usize)
    ensures
        r == parent_prefix(parent.events@, forked_at, parent.events@.len() as int),
{
    let mut n: usize = 0;
    while n < parent.events.len()
        invariant
            n <= parent.events@.len(),
            parent_prefix(parent.events@, forked_at, n as int) == n,
        decreases parent.events@.len() - n,
    {
        let keep = match forked_at {
            Some(f) => parent.events[n].timestamp_ms <= f,
            None => true,
        };
        if !keep {
            proof {
                lemma_prefix_stops(parent.events@, forked_at, n as int, parent.events@.len() as int);
            }
            return n;
        }
        n = n + 1;
    }
    n
}

proof fn lemma_prefix_stops(parent: Seq<CostUsageEvent>, forked_at: Option<i64>, n: int, m: int)
    requires
        0 <= n < m <= parent.len(),
        parent_prefix(parent, forked_at, n) == n,
        !match forked_at {
            Some(f) => parent[n].timestamp_ms <= f,
            None => true,
        },
    ensures
        parent_prefix(parent, forked_at, m) == n,
    decreases m - n,
{
    if m > n + 1 {
        lemma_prefix_stops(parent, forked_at, n, m - 1);
    }
}

proof fn lemma_match_stops(child: Seq<CostUsageEvent>, parent: Seq<CostUsageEvent>, limit: int, n: int, m: int)
    requires
        0 <= n < m <= child.len(),
        matched_prefix(child, parent, limit, n + 1) == matched_prefix(child, parent, limit, n),
        matched_prefix(child, parent, limit, n) < n + 1,
    ensures
        matched_prefix(child, parent, limit, m) == matched_prefix(child, parent, limit, n),
    decreases m - n,
{
    if m > n + 1 {
        lemma_match_stops(child, parent, limit, n, m - 1);
        assert(matched_prefix(child, parent, limit, m - 1) < m - 1);
    }
}

/// How many leading events of `child` replay its parent's usage.
pub fn replayed_prefix_len(child: &IndexedFile, parent: Option<&IndexedFile>) -> (r: usize)
    ensures
        r == replayed_len(
            *child,
            match parent {
                Some(p) => Some(*p),
                None => None,
            },
        ),
{
    if child.parent_id.is_none() {
        return 0;
    }
    let limit: usize = match parent {
        Some(p) => parent_prefix_len(p, child.forked_at_ms),
        None => 0,
    };
    proof {
        match parent {
            Some(p) => lemma_parent_prefix_bound(p.events@, child.forked_at_ms, p.events@.len() as int),
            None => {},
        }
    }
    let ghost parent_events = match parent {
        Some(p) => p.events@,
        None => Seq::<CostUsageEvent>::empty(),
    };
    let mut matched: usize = 0;
    let mut i: usize = 0;
    while i < child.events.len()
        invariant
            i <= child.events@.len(),
            matched == i,
            matched_prefix(child.events@, parent_events, limit as int, i as int) == i,
            limit as int <= parent_events.len(),
            parent_events == match parent {
                Some(p) => p.events@,
                None => Seq::<CostUsageEvent>::empty(),
            },
            limit == match parent {
                Some(p) => parent_prefix(p.events@, child.forked_at_ms, p.events@.len() as int),
                None => 0,
            },
            child.parent_id is Some,
        decreases child.events@.len() - i,
    {
        let hit = matched < limit && match parent {
            Some(p) => same_usage(&p.events[matched], &child.events[i]),
            None => false,
        };
        if hit {
            matched = matched + 1;
            i = i + 1;
        } else {
            proof {
                lemma_match_stops(
                    child.events@,
                    parent_events,
                    limit as int,
                    i as int,
                    child.events@.len() as int,
                );
            }
            if matched > 0 {
                return i;
            }
            return rewritten_first_second_len(child.events.as_slice());
        }
    }
    child.events.len()
}

/// The log a fork's parent ID names: the last log with that session ID, unless
/// that is the fork's own log.
pub open spec fn parent_index(files: Seq<IndexedFile>, child: int) -> Option<int> {
    match files[child].parent_id {
        None => None,
        Some(parent_id) => match last_with_session(files, parent_id@, files.len() as int) {
            Some(j) => if j == child {
                None
            } else {
                Some(j)
            },
            None => None,
        },
    }
}

/// The last of the first `n` logs whose session ID is `id`.
pub open spec fn last_with_session(files: Seq<IndexedFile>, id: Seq<char>, n: int) -> Option<int>
    decreases n,
{
    if n <= 0 {
        None
    } else if match files[n - 1].session_id {
        Some(s) => s@ == id,
        None => false,
    } {
        Some(n - 1)
    } else {
        last_with_session(files, id, n - 1)
    }
}

/// Finds the parent log of `files[child]`.
pub fn find_parent(files: &[IndexedFile], child: usize) -> (r: Option<usize>)
    requires
        child < files@.len(),
    ensures
        match r {
            Some(j) => parent_index(files@, child as int) == Some(j as int),
            None => parent_index(files@, child as int) is None,
        },
{
    let parent_id = match &files[child].parent_id {
        Some(p) => p.as_str(),
        None => {
            return None;
        },
    };
    let mut n: usize = files.len();
    while n > 0
        invariant
            n <= files@.len(),
            child < files@.len(),
            files@[child as int].parent_id matches Some(p) && p@ == parent_id@,
            last_with_session(files@, parent_id@, files@.len() as int) == last_with_session(
                files@,
                parent_id@,
                n as int,
            ),
        decreases n,
    {
        let matches = match &files[n - 1].session_id {
            Some(s) => str_eq(s.as_str(), parent_id),
            None => false,
        };
        if matches {
            if n - 1 == child {
                return None;
            }
            return Some(n - 1);
        }
        n = n - 1;
    }
    None
}

/// The later of two optional instants.
pub open spec fn latest(left: Option<i64>, right: Option<i64>) -> Option<i64> {
    match (left, right) {
        (Some(l), Some(r)) => Some(if l >= r { l } else { r }),
        (Some(v), None) => Some(v),
        (None, Some(v)) => Some(v),
        (None, None) => None,
    }
}

pub fn latest_timestamp(left: Option<i64>, right: Option<i64>) -> (r: Option<i64>)
    ensures
        r == latest(left, right),
{
    match (left, right) {
        (Some(l), Some(r)) => Some(if l >= r { l } else { r }),
        (Some(v), None) => Some(v),
        (None, Some(v)) => Some(v),
        (None, None) => None,
    }
}

/// `latest` keeps the later of its arguments whichever way round they come,
/// and never goes back in time.
pub proof fn law_latest_is_a_maximum(a: Option<i64>, b: Option<i64>, c: Option<i64>)
    ensures
        latest(a, b) == latest(b, a),
        latest(latest(a, b), c) == latest(a, latest(b, c)),
        a matches Some(x) ==> latest(a, b) matches Some(y) && x <= y,
{
}

/// A project's display name: its directory's last component, or the path itself.
pub open spec fn project_name_text(path: Seq<char>) -> Seq<char> {
    if path.len() == 0 {
        Seq::empty()
    } else {
        match crate::paths::file_name_of(path) {
            Some(name) => if name.len() > 0 {
                name
            } else {
                path
            },
            None => path,
        }
    }
}

pub fn project_name(path: &str) -> (r: String)
    ensures
        r@ == project_name_text(path@),
{
    if path.is_empty() {
        return String::new();
    }
    match crate::paths::file_name(path) {
        Some(name) => if !name.as_str().is_empty() {
            name
        } else {
            path.to_owned()
        },
        None => path.to_owned(),
    }
}

} // verus!
