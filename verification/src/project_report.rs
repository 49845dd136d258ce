//! Usage by project: each indexed session becomes a conversation of the
//! project its working directory names, with its usage per turn; each call is
//! counted once across all sessions and usage replayed into forks is left out.
use vstd::prelude::*;
use crate::assoc::{assoc_view, keys_ascending, lemma_assoc_empty, lemma_assoc_insert, lemma_assoc_set, lemma_value_at, locate};
use crate::codex::ThreadMetadata;
use crate::cost_report::{combined, event_cost, replayed_of, same_event, with_event, zero_aggregate, Aggregate};
use crate::json::opt_string_view;
use crate::local_usage::{strictly_sorted, text_set};
use crate::pricing::{estimate_standard_api_cost_at, lemma_text_lt_asymmetric, lemma_text_lt_transitive, pricing_rates_ok, text_less, text_lt, ActivePricing};
use crate::ranked::{lemma_map_multiset, ranked_order, ranked_sorted, sort_ranked, Ranked};
use crate::usage::{
    find_parent, latest, latest_timestamp, project_name, project_name_text, replayed_prefix_len, CostUsageEvent,
    IndexedFile, IndexedTurn,
};

verus! {

broadcast use vstd::string::group_string_axioms;

/// The thread the App Server lists under `id` (the last such, if repeated).
pub open spec fn thread_for(threads: Seq<ThreadMetadata>, id: Seq<char>, n: nat) -> Option<ThreadMetadata>
    decreases n,
{
    if n == 0 {
        None
    } else if threads[n - 1].id@ == id {
        Some(threads[n - 1])
    } else {
        thread_for(threads, id, (n - 1) as nat)
    }
}

/// The first of the first `n` pairs that resolves `raw`.
pub open spec fn first_resolution(canonical: Seq<(String, String)>, raw: Seq<char>, n: nat) -> Option<int>
    decreases n,
{
    if n == 0 {
        None
    } else {
        match first_resolution(canonical, raw, (n - 1) as nat) {
            Some(k) => Some(k),
            None => if canonical[n - 1].0@ == raw {
                Some(n - 1)
            } else {
                None
            },
        }
    }
}

/// Where a working directory resolves to, as the file system answered: the
/// first pair for it, else the directory itself; empty stays empty.
pub open spec fn resolved_path(canonical: Seq<(String, String)>, raw: Seq<char>) -> Seq<char> {
    if raw.len() == 0 {
        raw
    } else {
        match first_resolution(canonical, raw, canonical.len()) {
            Some(k) => canonical[k].1@,
            None => raw,
        }
    }
}

/// A thread's update time in milliseconds, capped at the range of `i64`.
pub open spec fn millis_of_seconds(seconds: i64) -> i64 {
    if seconds > 9_223_372_036_854_775 {
        i64::MAX
    } else if seconds < -9_223_372_036_854_775 {
        i64::MIN
    } else {
        (seconds * 1000) as i64
    }
}

/// The first turn record of a log under `id`.
pub open spec fn turn_meta(turns: Seq<(String, IndexedTurn)>, id: Seq<char>, n: nat) -> Option<IndexedTurn>
    decreases n,
{
    if n == 0 {
        None
    } else {
        match turn_meta(turns, id, (n - 1) as nat) {
            Some(t) => Some(t),
            None => if turns[n - 1].0@ == id {
                Some(turns[n - 1].1)
            } else {
                None
            },
        }
    }
}

/// A turn's usage, models and times.
pub struct TurnModel {
    pub usage: Aggregate,
    pub models: Set<Seq<char>>,
    pub started_at_ms: Option<i64>,
    pub updated_at_ms: Option<i64>,
}

/// A session's usage as a conversation of its project.
pub struct ConversationModel {
    pub id: Seq<char>,
    pub title: Option<Seq<char>>,
    pub session_path: Seq<char>,
    pub updated_at_ms: Option<i64>,
    pub is_subagent: bool,
    pub parent_id: Option<Seq<char>>,
    pub usage: Aggregate,
    pub models: Set<Seq<char>>,
    pub turns: Map<Seq<char>, TurnModel>,
    pub turns_indexed: bool,
}

/// A project's usage and its conversations, in the order of their logs.
pub struct ProjectModel {
    pub name: Seq<char>,
    pub path: Seq<char>,
    pub updated_at_ms: Option<i64>,
    pub usage: Aggregate,
    pub conversations: Seq<ConversationModel>,
}

/// What the pass over the logs has gathered so far.
pub struct UsageModel {
    pub seen: Seq<CostUsageEvent>,
    pub total: Aggregate,
    pub projects: Map<Seq<char>, ProjectModel>,
}

pub open spec fn opt_or(a: Option<Seq<char>>, b: Option<Seq<char>>) -> Option<Seq<char>> {
    if a is Some {
        a
    } else {
        b
    }
}

/// The session ID of log `i`: its own, else its path.
pub open spec fn session_of(files: Seq<IndexedFile>, paths: Seq<String>, i: int) -> Seq<char> {
    match files[i].session_id {
        Some(s) => s@,
        None => paths[i]@,
    }
}

/// The working directory of log `i`: the thread's, else the log's, else none.
pub open spec fn raw_project_of(thread: Option<ThreadMetadata>, file: IndexedFile) -> Seq<char> {
    match thread {
        Some(t) => if t.cwd@.len() > 0 {
            t.cwd@
        } else {
            match file.cwd {
                Some(c) => c@,
                None => Seq::empty(),
            }
        },
        None => match file.cwd {
            Some(c) => c@,
            None => Seq::empty(),
        },
    }
}

/// The project a directory files its conversations under.
pub open spec fn project_key(path: Seq<char>) -> Seq<char> {
    if path.len() == 0 {
        "__unassigned__"@
    } else {
        path
    }
}

/// The conversation of log `i` before its events are counted.
pub open spec fn new_conversation(files: Seq<IndexedFile>, paths: Seq<String>, thread: Option<ThreadMetadata>, i: int) -> ConversationModel {
    let file = files[i];
    let thread_parent = match thread {
        Some(t) => opt_string_view(t.parent_thread_id),
        None => None,
    };
    ConversationModel {
        id: session_of(files, paths, i),
        title: match thread {
            Some(t) => opt_string_view(t.name),
            None => None,
        },
        session_path: match thread {
            Some(t) => match t.path {
                Some(p) => p@,
                None => paths[i]@,
            },
            None => paths[i]@,
        },
        updated_at_ms: latest(
            file.updated_at_ms,
            match thread {
                Some(t) => Some(millis_of_seconds(t.updated_at)),
                None => None,
            },
        ),
        is_subagent: opt_or(thread_parent, opt_string_view(file.parent_id)) is Some,
        parent_id: opt_or(thread_parent, opt_string_view(file.parent_id)),
        usage: zero_aggregate(),
        models: Set::empty(),
        turns: Map::empty(),
        turns_indexed: file.project_metadata_indexed,
    }
}

/// A turn first seen with event `e`: its recorded times, else the event's instant.
pub open spec fn new_turn(meta: Option<IndexedTurn>, e: CostUsageEvent) -> TurnModel {
    TurnModel {
        usage: zero_aggregate(),
        models: Set::empty(),
        started_at_ms: match meta {
            Some(m) => if m.started_at_ms is Some {
                m.started_at_ms
            } else {
                Some(e.timestamp_ms)
            },
            None => Some(e.timestamp_ms),
        },
        updated_at_ms: match meta {
            Some(m) => if m.updated_at_ms is Some {
                m.updated_at_ms
            } else {
                Some(e.timestamp_ms)
            },
            None => Some(e.timestamp_ms),
        },
    }
}

/// A turn with one more event.
pub open spec fn turn_after(t: TurnModel, e: CostUsageEvent, c: Option<crate::pricing::CostBreakdown>) -> TurnModel {
    TurnModel {
        usage: with_event(t.usage, e, c),
        models: t.models.insert(e.model@),
        started_at_ms: t.started_at_ms,
        updated_at_ms: latest(t.updated_at_ms, Some(e.timestamp_ms)),
    }
}

/// The turns of a log with one more event counted in the turn it names.
pub open spec fn turn_step(
    turns: Map<Seq<char>, TurnModel>,
    file: IndexedFile,
    e: CostUsageEvent,
    c: Option<crate::pricing::CostBreakdown>,
) -> Map<Seq<char>, TurnModel> {
    let turn = if turns.contains_key(e.turn_id@) {
        turns[e.turn_id@]
    } else {
        new_turn(turn_meta(file.turns@, e.turn_id@, file.turns@.len()), e)
    };
    turns.insert(e.turn_id@, turn_after(turn, e, c))
}

/// One event of log `file`: a call already counted is passed over; a new one
/// counts in the total, the conversation and its turn.
pub open spec fn usage_step(
    state: (Seq<CostUsageEvent>, Aggregate, ConversationModel),
    file: IndexedFile,
    e: CostUsageEvent,
    active: ActivePricing,
    today: Seq<char>,
) -> (Seq<CostUsageEvent>, Aggregate, ConversationModel) {
    let (seen, total, conv) = state;
    if exists|k: int| 0 <= k < seen.len() && same_event(#[trigger] seen[k], e) {
        state
    } else {
        let c = event_cost(active, e, today);
        (
            seen.push(e),
            with_event(total, e, c),
            ConversationModel {
                usage: with_event(conv.usage, e, c),
                models: conv.models.insert(e.model@),
                updated_at_ms: latest(conv.updated_at_ms, Some(e.timestamp_ms)),
                turns: turn_step(conv.turns, file, e, c),
                ..conv
            },
        )
    }
}

pub open spec fn usage_events(
    state: (Seq<CostUsageEvent>, Aggregate, ConversationModel),
    file: IndexedFile,
    events: Seq<CostUsageEvent>,
    n: nat,
    active: ActivePricing,
    today: Seq<char>,
) -> (Seq<CostUsageEvent>, Aggregate, ConversationModel)
    decreases n,
{
    if n == 0 {
        state
    } else {
        usage_step(usage_events(state, file, events, (n - 1) as nat, active, today), file, events[n - 1], active, today)
    }
}


/// One log: its conversation, filed under its project when it used any tokens.
pub open spec fn file_step(
    m: UsageModel,
    files: Seq<IndexedFile>,
    paths: Seq<String>,
    threads: Seq<ThreadMetadata>,
    canonical: Seq<(String, String)>,
    i: int,
    active: ActivePricing,
    today: Seq<char>,
) -> UsageModel {
    let thread = thread_for(threads, session_of(files, paths, i), threads.len());
    let path = resolved_path(canonical, raw_project_of(thread, files[i]));
    let key = project_key(path);
    let events = crate::cost_report::counted_events(files, i);
    let (seen, total, conv) = usage_events(
        (m.seen, m.total, new_conversation(files, paths, thread, i)),
        files[i],
        events,
        events.len(),
        active,
        today,
    );
    if conv.usage.total_tokens == 0 {
        UsageModel { seen, total, projects: m.projects }
    } else {
        let project = if m.projects.contains_key(key) {
            m.projects[key]
        } else {
            ProjectModel { name: project_name_text(path), path, updated_at_ms: None, usage: zero_aggregate(), conversations: Seq::empty() }
        };
        UsageModel {
            seen,
            total,
            projects: m.projects.insert(
                key,
                ProjectModel {
                    usage: combined(project.usage, conv.usage),
                    updated_at_ms: latest(project.updated_at_ms, conv.updated_at_ms),
                    conversations: project.conversations.push(conv),
                    ..project
                },
            ),
        }
    }
}

pub open spec fn usage_files(
    files: Seq<IndexedFile>,
    paths: Seq<String>,
    threads: Seq<ThreadMetadata>,
    canonical: Seq<(String, String)>,
    n: nat,
    active: ActivePricing,
    today: Seq<char>,
) -> UsageModel
    decreases n,
{
    if n == 0 {
        UsageModel { seen: Seq::empty(), total: zero_aggregate(), projects: Map::empty() }
    } else {
        file_step(usage_files(files, paths, threads, canonical, (n - 1) as nat, active, today), files, paths, threads, canonical, n - 1, active, today)
    }
}

/// A turn's usage, models (in order) and times.
#[derive(Debug)]
pub struct TurnEntry {
    pub usage: Aggregate,
    pub models: Vec<String>,
    pub started_at_ms: Option<i64>,
    pub updated_at_ms: Option<i64>,
}

/// A session's usage as a conversation; models and turns in order.
#[derive(Debug)]
pub struct Conversation {
    pub id: String,
    pub title: Option<String>,
    pub session_path: String,
    pub updated_at_ms: Option<i64>,
    pub is_subagent: bool,
    pub parent_id: Option<String>,
    pub usage: Aggregate,
    pub models: Vec<String>,
    pub turns: Vec<(String, TurnEntry)>,
    pub turns_indexed: bool,
}

/// A project's usage and its conversations.
#[derive(Debug)]
pub struct Project {
    pub name: String,
    pub path: String,
    pub updated_at_ms: Option<i64>,
    pub usage: Aggregate,
    pub conversations: Vec<Conversation>,
}

pub open spec fn turn_view(t: TurnEntry) -> TurnModel {
    TurnModel { usage: t.usage, models: text_set(t.models@), started_at_ms: t.started_at_ms, updated_at_ms: t.updated_at_ms }
}

pub open spec fn conversation_view(c: Conversation) -> ConversationModel {
    ConversationModel {
        id: c.id@,
        title: opt_string_view(c.title),
        session_path: c.session_path@,
        updated_at_ms: c.updated_at_ms,
        is_subagent: c.is_subagent,
        parent_id: opt_string_view(c.parent_id),
        usage: c.usage,
        models: text_set(c.models@),
        turns: turns_view(c.turns@),
        turns_indexed: c.turns_indexed,
    }
}

pub open spec fn turns_view(turns: Seq<(String, TurnEntry)>) -> Map<Seq<char>, TurnModel> {
    assoc_view(turns).map_values(|t: TurnEntry| turn_view(t))
}

pub open spec fn conversations_view(v: Seq<Conversation>) -> Seq<ConversationModel> {
    v.map_values(|c: Conversation| conversation_view(c))
}

pub open spec fn project_view(p: Project) -> ProjectModel {
    ProjectModel {
        name: p.name@,
        path: p.path@,
        updated_at_ms: p.updated_at_ms,
        usage: p.usage,
        conversations: conversations_view(p.conversations@),
    }
}

pub open spec fn projects_view(v: Seq<(String, Project)>) -> Map<Seq<char>, ProjectModel> {
    assoc_view(v).map_values(|p: Project| project_view(p))
}

/// Models in order and turns in order of ID, each with its models in order.
pub open spec fn conversation_ordered(c: Conversation) -> bool {
    &&& strictly_sorted(c.models@)
    &&& turns_ordered(c.turns@)
}

/// Turns in order of ID, each with its models in order.
pub open spec fn turns_ordered(turns: Seq<(String, TurnEntry)>) -> bool {
    &&& keys_ascending(turns)
    &&& forall|k: int| 0 <= k < turns.len() ==> strictly_sorted(#[trigger] turns[k].1.models@)
}

pub open spec fn projects_ordered(v: Seq<(String, Project)>) -> bool {
    &&& keys_ascending(v)
    &&& forall|k: int, q: int| 0 <= k < v.len() && 0 <= q < v[k].1.conversations@.len() ==> conversation_ordered(
        #[trigger] v[k].1.conversations@[q],
    )
}


fn find_turn_meta(turns: &Vec<(String, IndexedTurn)>, id: &str) -> (r: Option<(Option<i64>, Option<i64>)>)
    ensures
        match turn_meta(turns@, id@, turns@.len()) {
            Some(t) => r == Some((t.started_at_ms, t.updated_at_ms)),
            None => r is None,
        },
{
    let mut k: usize = 0;
    while k < turns.len()
        invariant
            k <= turns@.len(),
            turn_meta(turns@, id@, k as nat) is None,
        decreases turns@.len() - k,
    {
        if crate::text::str_eq(turns[k].0.as_str(), id) {
            proof {
                lemma_turn_meta_sticks(turns@, id@, (k + 1) as nat, turns@.len());
            }
            return Some((turns[k].1.started_at_ms, turns[k].1.updated_at_ms));
        }
        k = k + 1;
    }
    None
}

proof fn lemma_turn_meta_sticks(turns: Seq<(String, IndexedTurn)>, id: Seq<char>, k: nat, n: nat)
    requires
        k <= n,
        turn_meta(turns, id, k) is Some,
    ensures
        turn_meta(turns, id, n) == turn_meta(turns, id, k),
    decreases n,
{
    if n > k {
        lemma_turn_meta_sticks(turns, id, k, (n - 1) as nat);
    }
}

fn count_in_turn(turn: &mut TurnEntry, e: &CostUsageEvent, cost: Option<crate::pricing::CostBreakdown>)
    requires
        strictly_sorted(old(turn).models@),
    ensures
        strictly_sorted(final(turn).models@),
        turn_view(*final(turn)) == turn_after(turn_view(*old(turn)), *e, cost),
{
    turn.usage.add_event(e, cost);
    crate::local_usage::insert_name(&mut turn.models, e.model.as_str());
    turn.updated_at_ms = latest_timestamp(turn.updated_at_ms, Some(e.timestamp_ms));
}

/// Counts one event in its conversation and turn.
fn count_event<'a>(
    seen: &mut Vec<&'a CostUsageEvent>,
    total: &mut Aggregate,
    conv: &mut Conversation,
    file: &IndexedFile,
    e: &'a CostUsageEvent,
    active: &ActivePricing,
    today: &str,
)
    requires
        pricing_rates_ok(active.versions@),
        conversation_ordered(*old(conv)),
    ensures
        conversation_ordered(*final(conv)),
        ({
            let after = usage_step(
                (old(seen)@.map_values(|x: &CostUsageEvent| *x), *old(total), conversation_view(*old(conv))),
                *file,
                *e,
                *active,
                today@,
            );
            &&& final(seen)@.map_values(|x: &CostUsageEvent| *x) == after.0
            &&& *final(total) == after.1
            &&& conversation_view(*final(conv)) == after.2
        }),
{
    let ghost seen_events = seen@.map_values(|x: &CostUsageEvent| *x);
    let mut k: usize = 0;
    while k < seen.len()
        invariant
            k <= seen@.len(),
            *seen == *old(seen),
            *conv == *old(conv),
            *total == *old(total),
            conversation_ordered(*conv),
            seen_events == seen@.map_values(|x: &CostUsageEvent| *x),
            forall|q: int| 0 <= q < k ==> !same_event(#[trigger] seen_events[q], *e),
        decreases seen@.len() - k,
    {
        let s = seen[k];
        if s.timestamp_ms == e.timestamp_ms && crate::text::str_eq(s.model.as_str(), e.model.as_str())
            && s.input_tokens == e.input_tokens && s.cached_input_tokens == e.cached_input_tokens
            && s.cache_write_input_tokens == e.cache_write_input_tokens && s.output_tokens == e.output_tokens
            && s.total_tokens == e.total_tokens {
            assert(same_event(seen_events[k as int], *e));
            return;
        }
        k = k + 1;
    }
    let cost = estimate_standard_api_cost_at(
        active,
        e.model.as_str(),
        e.input_tokens,
        e.cached_input_tokens,
        e.output_tokens,
        e.timestamp_ms,
        today,
    );
    total.add_event(e, cost);
    seen.push(e);
    assert(seen@.map_values(|x: &CostUsageEvent| *x) =~= seen_events.push(*e));
    conv.usage.add_event(e, cost);
    crate::local_usage::insert_name(&mut conv.models, e.model.as_str());
    conv.updated_at_ms = latest_timestamp(conv.updated_at_ms, Some(e.timestamp_ms));
    count_turn(&mut conv.turns, file, e, cost);
}

/// Counts one event in the turn it names, which starts with its recorded
/// times when it is new.
fn count_turn(turns: &mut Vec<(String, TurnEntry)>, file: &IndexedFile, e: &CostUsageEvent, cost: Option<crate::pricing::CostBreakdown>)
    requires
        turns_ordered(old(turns)@),
    ensures
        turns_ordered(final(turns)@),
        turns_view(final(turns)@) == turn_step(turns_view(old(turns)@), *file, *e, cost),
{
    let ghost turns_before = turns@;
    match locate(turns, e.turn_id.as_str()) {
        Ok(i) => {
            proof {
                lemma_value_at(turns_before, i as int);
            }
            let (key, mut turn) = turns.remove(i);
            assert(strictly_sorted(turn.models@)) by {
                assert(turns_before[i as int].1 == turn);
            }
            count_in_turn(&mut turn, e, cost);
            let ghost updated = turn;
            turns.insert(i, (key, turn));
            assert(turns@ =~= turns_before.update(i as int, (turns_before[i as int].0, updated)));
            proof {
                lemma_assoc_set(turns_before, i as int, updated);
                assert forall|q: int| 0 <= q < turns@.len() implies strictly_sorted(#[trigger] turns@[q].1.models@) by {
                    if q != i {
                        assert(turns@[q] == turns_before[q]);
                    }
                }
                assert(turns_view(turns@) =~= turns_view(turns_before).insert(e.turn_id@, turn_view(updated)));
            }
        },
        Err(p) => {
            let meta = find_turn_meta(&file.turns, e.turn_id.as_str());
            let (started, updated) = match meta {
                Some((s, u)) => (
                    if s.is_some() { s } else { Some(e.timestamp_ms) },
                    if u.is_some() { u } else { Some(e.timestamp_ms) },
                ),
                None => (Some(e.timestamp_ms), Some(e.timestamp_ms)),
            };
            let mut turn = TurnEntry { usage: Aggregate::zero(), models: Vec::new(), started_at_ms: started, updated_at_ms: updated };
            assert(text_set(turn.models@) =~= Set::<Seq<char>>::empty());
            assert(turn_view(turn) == new_turn(turn_meta(file.turns@, e.turn_id@, file.turns@.len()), *e));
            count_in_turn(&mut turn, e, cost);
            let key = e.turn_id.clone();
            proof {
                lemma_assoc_insert(turns_before, p as int, key, turn);
            }
            let ghost inserted = turn;
            turns.insert(p, (key, turn));
            proof {
                assert forall|q: int| 0 <= q < turns@.len() implies strictly_sorted(#[trigger] turns@[q].1.models@) by {
                    if q < p {
                        assert(turns@[q] == turns_before[q]);
                    } else if q > p {
                        assert(turns@[q] == turns_before[q - 1]);
                    }
                }
                assert(!crate::assoc::has_key(turns_before, e.turn_id@));
                assert(turns_view(turns@) =~= turns_view(turns_before).insert(e.turn_id@, turn_view(inserted)));
            }
        },
    }
}

fn thread_of<'a>(threads: &'a Vec<ThreadMetadata>, id: &str) -> (r: Option<&'a ThreadMetadata>)
    ensures
        match r {
            Some(t) => thread_for(threads@, id@, threads@.len()) == Some(*t),
            None => thread_for(threads@, id@, threads@.len()) is None,
        },
{
    let mut n = threads.len();
    while n > 0
        invariant
            n <= threads@.len(),
            thread_for(threads@, id@, threads@.len()) == thread_for(threads@, id@, n as nat),
        decreases n,
    {
        if crate::text::str_eq(threads[n - 1].id.as_str(), id) {
            return Some(&threads[n - 1]);
        }
        n = n - 1;
    }
    None
}

fn resolve_path(canonical: &Vec<(String, String)>, raw: String) -> (r: String)
    ensures
        r@ == resolved_path(canonical@, raw@),
{
    if raw.as_str().is_empty() {
        return raw;
    }
    let mut k: usize = 0;
    while k < canonical.len()
        invariant
            k <= canonical@.len(),
            raw@.len() > 0,
            first_resolution(canonical@, raw@, k as nat) is None,
        decreases canonical@.len() - k,
    {
        if crate::text::str_eq(canonical[k].0.as_str(), raw.as_str()) {
            proof {
                lemma_resolution_sticks(canonical@, raw@, (k + 1) as nat, canonical@.len());
            }
            return canonical[k].1.clone();
        }
        k = k + 1;
    }
    raw
}

proof fn lemma_resolution_sticks(canonical: Seq<(String, String)>, raw: Seq<char>, k: nat, n: nat)
    requires
        k <= n,
        first_resolution(canonical, raw, k) is Some,
    ensures
        first_resolution(canonical, raw, n) == first_resolution(canonical, raw, k),
    decreases n,
{
    if n > k {
        lemma_resolution_sticks(canonical, raw, k, (n - 1) as nat);
    }
}

fn seconds_to_millis(seconds: i64) -> (r: i64)
    ensures
        r == millis_of_seconds(seconds),
{
    if seconds > 9_223_372_036_854_775 {
        i64::MAX
    } else if seconds < -9_223_372_036_854_775 {
        i64::MIN
    } else {
        seconds * 1000
    }
}

fn copy_opt(v: &Option<String>) -> (r: Option<String>)
    ensures
        opt_string_view(r) == opt_string_view(*v),
{
    match v {
        Some(s) => Some(s.clone()),
        None => None,
    }
}

/// The conversation of log `i` before its events are counted.
fn start_conversation(file: &IndexedFile, path: &String, session_id: String, thread: Option<&ThreadMetadata>) -> (r: Conversation)
    ensures
        conversation_ordered(r),
        conversation_view(r) == ({
            let thread_parent = match thread {
                Some(t) => opt_string_view(t.parent_thread_id),
                None => None,
            };
            ConversationModel {
                id: session_id@,
                title: match thread {
                    Some(t) => opt_string_view(t.name),
                    None => None,
                },
                session_path: match thread {
                    Some(t) => match t.path {
                        Some(p) => p@,
                        None => path@,
                    },
                    None => path@,
                },
                updated_at_ms: latest(
                    file.updated_at_ms,
                    match thread {
                        Some(t) => Some(millis_of_seconds(t.updated_at)),
                        None => None,
                    },
                ),
                is_subagent: opt_or(thread_parent, opt_string_view(file.parent_id)) is Some,
                parent_id: opt_or(thread_parent, opt_string_view(file.parent_id)),
                usage: zero_aggregate(),
                models: Set::empty(),
                turns: Map::empty(),
                turns_indexed: file.project_metadata_indexed,
            }
        }),
{
    let thread_parent = match thread {
        Some(t) => copy_opt(&t.parent_thread_id),
        None => None,
    };
    let parent_id = if thread_parent.is_some() { thread_parent } else { copy_opt(&file.parent_id) };
    let conv = Conversation {
        id: session_id,
        title: match thread {
            Some(t) => copy_opt(&t.name),
            None => None,
        },
        session_path: match thread {
            Some(t) => match &t.path {
                Some(p) => p.clone(),
                None => path.clone(),
            },
            None => path.clone(),
        },
        updated_at_ms: latest_timestamp(
            file.updated_at_ms,
            match thread {
                Some(t) => Some(seconds_to_millis(t.updated_at)),
                None => None,
            },
        ),
        is_subagent: parent_id.is_some(),
        parent_id,
        usage: Aggregate::zero(),
        models: Vec::new(),
        turns: Vec::new(),
        turns_indexed: file.project_metadata_indexed,
    };
    proof {
        lemma_assoc_empty(conv.turns@);
        assert(text_set(conv.models@) =~= Set::<Seq<char>>::empty());
        assert(assoc_view(conv.turns@).map_values(|t: TurnEntry| turn_view(t)) =~= Map::<Seq<char>, TurnModel>::empty());
    }
    conv
}

/// Files a conversation under its project, creating the project if needed.
fn file_conversation(projects: &mut Vec<(String, Project)>, key: String, path: String, conv: Conversation)
    requires
        projects_ordered(old(projects)@),
        conversation_ordered(conv),
    ensures
        projects_ordered(final(projects)@),
        projects_view(final(projects)@) == ({
            let m = projects_view(old(projects)@);
            let project = if m.contains_key(key@) {
                m[key@]
            } else {
                ProjectModel { name: project_name_text(path@), path: path@, updated_at_ms: None, usage: zero_aggregate(), conversations: Seq::empty() }
            };
            m.insert(
                key@,
                ProjectModel {
                    usage: combined(project.usage, conv.usage),
                    updated_at_ms: latest(project.updated_at_ms, conv.updated_at_ms),
                    conversations: project.conversations.push(conversation_view(conv)),
                    ..project
                },
            )
        }),
{
    let ghost before = projects@;
    let ghost cv = conversation_view(conv);
    let ghost conv_ghost = conv;
    match locate(projects, key.as_str()) {
        Ok(i) => {
            proof {
                lemma_value_at(before, i as int);
            }
            let (k, mut project) = projects.remove(i);
            let ghost old_project = project;
            project.usage.add_aggregate(&conv.usage);
            project.updated_at_ms = latest_timestamp(project.updated_at_ms, conv.updated_at_ms);
            project.conversations.push(conv);
            assert(conversations_view(project.conversations@) =~= conversations_view(old_project.conversations@).push(cv));
            let ghost updated = project;
            projects.insert(i, (k, project));
            assert(projects@ =~= before.update(i as int, (before[i as int].0, updated)));
            proof {
                lemma_assoc_set(before, i as int, updated);
                assert forall|a: int, q: int| 0 <= a < projects@.len() && 0 <= q < projects@[a].1.conversations@.len() implies conversation_ordered(
                    #[trigger] projects@[a].1.conversations@[q],
                ) by {
                    if a != i {
                        assert(projects@[a] == before[a]);
                    } else if q < old_project.conversations@.len() {
                        assert(projects@[a].1.conversations@[q] == before[i as int].1.conversations@[q]);
                    } else {
                        assert(projects@[a].1.conversations@[q] == conv_ghost);
                    }
                }
                assert(projects_view(projects@) =~= projects_view(before).insert(key@, project_view(updated)));
            }
        },
        Err(p) => {
            let name = project_name(path.as_str());
            let mut project = Project { name, path, updated_at_ms: None, usage: Aggregate::zero(), conversations: Vec::new() };
            project.usage.add_aggregate(&conv.usage);
            project.updated_at_ms = latest_timestamp(project.updated_at_ms, conv.updated_at_ms);
            project.conversations.push(conv);
            assert(conversations_view(project.conversations@) =~= seq![cv]);
            proof {
                lemma_assoc_insert(before, p as int, key, project);
            }
            let ghost inserted = project;
            projects.insert(p, (key, project));
            proof {
                assert forall|a: int, q: int| 0 <= a < projects@.len() && 0 <= q < projects@[a].1.conversations@.len() implies conversation_ordered(
                    #[trigger] projects@[a].1.conversations@[q],
                ) by {
                    if a < p {
                        assert(projects@[a] == before[a]);
                    } else if a > p {
                        assert(projects@[a] == before[a - 1]);
                    } else {
                        assert(projects@[a].1.conversations@[q] == conv_ghost);
                    }
                }
                assert(!crate::assoc::has_key(before, key@));
                assert(projects_view(projects@) =~= projects_view(before).insert(key@, project_view(inserted)));
            }
        },
    }
}


/// Usage by project, before rows are ordered.
#[derive(Debug)]
pub struct ProjectAggregation {
    pub total: Aggregate,
    pub projects: Vec<(String, Project)>,
}

#[verifier::rlimit(60)]
#[verifier::spinoff_prover]
/// Counts the logs, given in the order of their paths, into conversations
/// filed by project. `threads` is what the App Server lists; `canonical`
/// pairs each working directory with what it resolves to on disk.
pub fn aggregate_projects(
    files: &Vec<IndexedFile>,
    paths: &Vec<String>,
    threads: &Vec<ThreadMetadata>,
    canonical: &Vec<(String, String)>,
    active: &ActivePricing,
    today: &str,
) -> (r: ProjectAggregation)
    requires
        pricing_rates_ok(active.versions@),
        files@.len() == paths@.len(),
    ensures
        projects_ordered(r.projects@),
        ({
            let m = usage_files(files@, paths@, threads@, canonical@, files@.len(), *active, today@);
            &&& r.total == m.total
            &&& projects_view(r.projects@) == m.projects
        }),
{
    let mut seen: Vec<&CostUsageEvent> = Vec::new();
    let mut total = Aggregate::zero();
    let mut projects: Vec<(String, Project)> = Vec::new();
    proof {
        lemma_assoc_empty(projects@);
        assert(projects_view(projects@) =~= Map::<Seq<char>, ProjectModel>::empty());
        assert(seen@.map_values(|x: &CostUsageEvent| *x) =~= Seq::<CostUsageEvent>::empty());
    }
    let mut i: usize = 0;
    while i < files.len()
        invariant
            i <= files@.len(),
            files@.len() == paths@.len(),
            pricing_rates_ok(active.versions@),
            projects_ordered(projects@),
            ({
                let m = usage_files(files@, paths@, threads@, canonical@, i as nat, *active, today@);
                &&& seen@.map_values(|x: &CostUsageEvent| *x) == m.seen
                &&& total == m.total
                &&& projects_view(projects@) == m.projects
            }),
        decreases files@.len() - i,
    {
        let file = &files[i];
        let session_id = match &file.session_id {
            Some(s) => s.clone(),
            None => paths[i].clone(),
        };
        let thread = thread_of(threads, session_id.as_str());
        let raw = match thread {
            Some(t) => if !t.cwd.as_str().is_empty() {
                t.cwd.clone()
            } else {
                match &file.cwd {
                    Some(c) => c.clone(),
                    None => String::new(),
                }
            },
            None => match &file.cwd {
                Some(c) => c.clone(),
                None => String::new(),
            },
        };
        let path = resolve_path(canonical, raw);
        let key = if path.as_str().is_empty() { "__unassigned__".to_owned() } else { path.clone() };
        let mut conv = start_conversation(file, &paths[i], session_id, thread);
        let parent = find_parent(files.as_slice(), i);
        proof {
            crate::cost_report::lemma_parent_in_range(files@, i as int);
        }
        let parent_file: Option<&IndexedFile> = match parent {
            Some(j) => Some(&files[j]),
            None => None,
        };
        let skip = replayed_prefix_len(file, parent_file);
        let n = file.events.len();
        let start = if skip >= n { n } else { skip };
        let ghost counted = crate::cost_report::counted_events(files@, i as int);
        let ghost base = (seen@.map_values(|x: &CostUsageEvent| *x), total, conversation_view(conv));
        assert(skip == replayed_of(files@, i as int));
        let mut j: usize = start;
        while j < n
            invariant
                start <= j <= n,
                n == file.events@.len(),
                *file == files@[i as int],
                counted == crate::cost_report::counted_events(files@, i as int),
                counted.len() == n - start,
                forall|q: int| 0 <= q < counted.len() ==> #[trigger] counted[q] == file.events@[start + q],
                pricing_rates_ok(active.versions@),
                conversation_ordered(conv),
                ({
                    let after = usage_events(base, *file, counted, (j - start) as nat, *active, today@);
                    &&& seen@.map_values(|x: &CostUsageEvent| *x) == after.0
                    &&& total == after.1
                    &&& conversation_view(conv) == after.2
                }),
            decreases n - j,
        {
            assert(counted[(j - start) as int] == file.events@[j as int]);
            count_event(&mut seen, &mut total, &mut conv, file, &file.events[j], active, today);
            j = j + 1;
        }
        if conv.usage.total_tokens != 0 {
            file_conversation(&mut projects, key, path, conv);
        }
        i = i + 1;
    }
    ProjectAggregation { total, projects }
}


/// `a < b` for optional instants, an unknown instant first.
pub open spec fn opt_lt(a: Option<i64>, b: Option<i64>) -> bool {
    match (a, b) {
        (None, Some(_)) => true,
        (Some(x), Some(y)) => x < y,
        _ => false,
    }
}

fn opt_less(a: Option<i64>, b: Option<i64>) -> (r: bool)
    ensures
        r == opt_lt(a, b),
{
    match (a, b) {
        (None, Some(_)) => true,
        (Some(x), Some(y)) => x < y,
        _ => false,
    }
}

/// `a < b` for optional texts, no text first.
pub open spec fn opt_text_lt(a: Option<Seq<char>>, b: Option<Seq<char>>) -> bool {
    match (a, b) {
        (None, Some(_)) => true,
        (Some(x), Some(y)) => text_lt(x, y),
        _ => false,
    }
}

/// A turn as the report lists it; `sequence` counts from 1 in list order.
#[derive(Debug)]
pub struct TurnRow {
    pub id: String,
    pub sequence: usize,
    pub started_at_ms: Option<i64>,
    pub updated_at_ms: Option<i64>,
    pub models: Vec<String>,
    pub usage: Aggregate,
}

impl Ranked for TurnRow {
    /// Earlier start first, then by ID.
    open spec fn before(self, other: Self) -> bool {
        opt_lt(self.started_at_ms, other.started_at_ms) || (self.started_at_ms == other.started_at_ms && text_lt(
            self.id@,
            other.id@,
        ))
    }

    proof fn lemma_before(a: Self, b: Self, c: Self) {
        lemma_text_lt_asymmetric(a.id@, b.id@);
        if text_lt(a.id@, b.id@) && text_lt(b.id@, c.id@) {
            lemma_text_lt_transitive(a.id@, b.id@, c.id@);
        }
    }

    fn comes_before(&self, other: &Self) -> (r: bool) {
        opt_less(self.started_at_ms, other.started_at_ms) || (self.started_at_ms == other.started_at_ms && text_less(
            self.id.as_str(),
            other.id.as_str(),
        ))
    }
}

pub open spec fn turn_row_key(r: TurnRow) -> (Seq<char>, Option<i64>, Option<i64>, Seq<String>, Aggregate) {
    (r.id@, r.started_at_ms, r.updated_at_ms, r.models@, r.usage)
}

pub open spec fn turn_entry_key(t: (String, TurnEntry)) -> (Seq<char>, Option<i64>, Option<i64>, Seq<String>, Aggregate) {
    (t.0@, t.1.started_at_ms, t.1.updated_at_ms, t.1.models@, t.1.usage)
}

/// `rows` lists `turns` ordered by start, then ID, numbered from 1.
pub open spec fn turn_rows_of(turns: Seq<(String, TurnEntry)>, rows: Seq<TurnRow>) -> bool {
    &&& ranked_sorted(rows)
    &&& forall|i: int| 0 <= i < rows.len() ==> (#[trigger] rows[i]).sequence == i + 1
    &&& rows.map_values(|r: TurnRow| turn_row_key(r)).to_multiset() == turns.map_values(
        |t: (String, TurnEntry)| turn_entry_key(t),
    ).to_multiset()
}

/// The turn rows of a conversation.
pub fn turn_rows(turns: Vec<(String, TurnEntry)>) -> (r: Vec<TurnRow>)
    ensures
        turn_rows_of(turns@, r@),
        r@.len() == turns@.len(),
{
    let ghost input = turns@;
    let mut unsorted: Vec<TurnRow> = Vec::new();
    let mut rest = turns;
    let n = rest.len();
    let mut i: usize = 0;
    while rest.len() > 0
        invariant
            i + rest@.len() == n,
            n == input.len(),
            rest@ == input.skip(i as int),
            unsorted@.map_values(|r: TurnRow| turn_row_key(r)) == input.take(i as int).map_values(
                |t: (String, TurnEntry)| turn_entry_key(t),
            ),
        decreases rest@.len(),
    {
        let (id, entry) = rest.remove(0);
        assert(input[i as int] == (id, entry));
        assert(rest@ =~= input.skip(i + 1));
        let TurnEntry { usage, models, started_at_ms, updated_at_ms } = entry;
        let ghost before = unsorted@;
        let row = TurnRow { id, sequence: 0, started_at_ms, updated_at_ms, models, usage };
        assert(turn_row_key(row) == turn_entry_key(input[i as int]));
        unsorted.push(row);
        assert(input.take(i + 1) =~= input.take(i as int).push(input[i as int]));
        assert(unsorted@ =~= before.push(row));
        assert(unsorted@.map_values(|r: TurnRow| turn_row_key(r)) =~= before.map_values(|r: TurnRow| turn_row_key(r)).push(
            turn_row_key(row),
        ));
        assert(input.take(i + 1).map_values(|t: (String, TurnEntry)| turn_entry_key(t)) =~= input.take(i as int).map_values(
            |t: (String, TurnEntry)| turn_entry_key(t),
        ).push(turn_entry_key(input[i as int])));
        assert(unsorted@.map_values(|r: TurnRow| turn_row_key(r)) =~= input.take(i + 1).map_values(
            |t: (String, TurnEntry)| turn_entry_key(t),
        ));
        i = i + 1;
    }
    assert(input.take(i as int) =~= input);
    let ghost unsorted_rows = unsorted@;
    let sorted = sort_ranked(unsorted);
    proof {
        lemma_map_multiset(sorted@, unsorted_rows, |r: TurnRow| turn_row_key(r));
    }
    let ghost sorted_rows = sorted@;
    let mut out: Vec<TurnRow> = Vec::new();
    let mut remaining = sorted;
    let mut k: usize = 0;
    let total = remaining.len();
    while remaining.len() > 0
        invariant
            k + remaining@.len() == total,
            total == sorted_rows.len(),
            remaining@ == sorted_rows.skip(k as int),
            out@.len() == k,
            forall|q: int| 0 <= q < k ==> (#[trigger] out@[q]).sequence == q + 1,
            forall|q: int| 0 <= q < k ==> turn_row_key(#[trigger] out@[q]) == turn_row_key(sorted_rows[q]),
            forall|q: int| 0 <= q < k ==> (#[trigger] out@[q]).started_at_ms == sorted_rows[q].started_at_ms && out@[q].id@
                == sorted_rows[q].id@,
        decreases remaining@.len(),
    {
        let mut row = remaining.remove(0);
        assert(row == sorted_rows[k as int]);
        assert(remaining@ =~= sorted_rows.skip(k + 1));
        row.sequence = k + 1;
        out.push(row);
        k = k + 1;
    }
    assert(out@.map_values(|r: TurnRow| turn_row_key(r)) =~= sorted_rows.map_values(|r: TurnRow| turn_row_key(r)));
    assert(ranked_sorted(out@)) by {
        assert forall|a: int, b: int| 0 <= a < b < out@.len() implies !TurnRow::before(#[trigger] out@[b], #[trigger] out@[a]) by {
            assert(!TurnRow::before(sorted_rows[b], sorted_rows[a]));
        }
    }
    out
}


/// `a > b` for optional instants, an unknown instant last.
pub open spec fn opt_gt(a: Option<i64>, b: Option<i64>) -> bool {
    opt_lt(b, a)
}

impl Ranked for Conversation {
    /// Latest activity first, then most tokens.
    open spec fn before(self, other: Self) -> bool {
        opt_gt(self.updated_at_ms, other.updated_at_ms) || (self.updated_at_ms == other.updated_at_ms
            && self.usage.total_tokens > other.usage.total_tokens)
    }

    proof fn lemma_before(a: Self, b: Self, c: Self) {
    }

    fn comes_before(&self, other: &Self) -> (r: bool) {
        opt_less(other.updated_at_ms, self.updated_at_ms) || (self.updated_at_ms == other.updated_at_ms
            && self.usage.total_tokens > other.usage.total_tokens)
    }
}

/// A conversation as the report lists it.
#[derive(Debug)]
pub struct ConversationRow {
    pub id: String,
    pub title: Option<String>,
    pub session_path: String,
    pub updated_at_ms: Option<i64>,
    pub is_subagent: bool,
    pub parent_id: Option<String>,
    pub models: Vec<String>,
    pub turns: usize,
    pub turns_indexed: bool,
    pub usage: Aggregate,
    pub turn_rows: Vec<TurnRow>,
}

/// `r` lists conversation `c`.
pub open spec fn conversation_row_of(c: Conversation, r: ConversationRow) -> bool {
    &&& r.id@ == c.id@
    &&& opt_string_view(r.title) == opt_string_view(c.title)
    &&& r.session_path@ == c.session_path@
    &&& r.updated_at_ms == c.updated_at_ms
    &&& r.is_subagent == c.is_subagent
    &&& opt_string_view(r.parent_id) == opt_string_view(c.parent_id)
    &&& r.models@ == c.models@
    &&& r.turns == c.turns@.len()
    &&& r.turns_indexed == c.turns_indexed
    &&& r.usage == c.usage
    &&& turn_rows_of(c.turns@, r.turn_rows@)
}

/// The row of a conversation.
pub fn conversation_row(c: Conversation) -> (r: ConversationRow)
    ensures
        conversation_row_of(c, r),
{
    let ghost before = c;
    let Conversation { id, title, session_path, updated_at_ms, is_subagent, parent_id, usage, models, turns, turns_indexed } = c;
    let rows = turn_rows(turns);
    ConversationRow {
        id,
        title,
        session_path,
        updated_at_ms,
        is_subagent,
        parent_id,
        models,
        turns: rows.len(),
        turns_indexed,
        usage,
        turn_rows: rows,
    }
}

/// A project as the report lists it.
#[derive(Debug)]
pub struct ProjectRow {
    pub name: String,
    pub path: String,
    pub updated_at: Option<String>,
    pub sessions: usize,
    pub turns: usize,
    pub turn_sessions_indexed: usize,
    pub usage: Aggregate,
    pub conversations: Vec<ConversationRow>,
}

impl Ranked for ProjectRow {
    /// Latest activity first (by its RFC 3339 text), then most tokens, then by name.
    open spec fn before(self, other: Self) -> bool {
        ||| opt_text_lt(opt_string_view(other.updated_at), opt_string_view(self.updated_at))
        ||| (opt_string_view(self.updated_at) == opt_string_view(other.updated_at) && self.usage.total_tokens
            > other.usage.total_tokens)
        ||| (opt_string_view(self.updated_at) == opt_string_view(other.updated_at) && self.usage.total_tokens
            == other.usage.total_tokens && text_lt(self.name@, other.name@))
    }

    proof fn lemma_before(a: Self, b: Self, c: Self) {
        let (ua, ub, uc) = (opt_string_view(a.updated_at), opt_string_view(b.updated_at), opt_string_view(c.updated_at));
        if ua is Some && ub is Some {
            lemma_text_lt_asymmetric(ua->0, ub->0);
        }
        if ua is Some && ub is Some && uc is Some {
            if text_lt(ub->0, ua->0) && text_lt(uc->0, ub->0) {
                lemma_text_lt_transitive(uc->0, ub->0, ua->0);
            }
        }
        lemma_text_lt_asymmetric(a.name@, b.name@);
        if text_lt(a.name@, b.name@) && text_lt(b.name@, c.name@) {
            lemma_text_lt_transitive(a.name@, b.name@, c.name@);
        }
    }

    fn comes_before(&self, other: &Self) -> (r: bool) {
        let later = match (&other.updated_at, &self.updated_at) {
            (None, Some(_)) => true,
            (Some(x), Some(y)) => text_less(x.as_str(), y.as_str()),
            _ => false,
        };
        let same = match (&self.updated_at, &other.updated_at) {
            (None, None) => true,
            (Some(x), Some(y)) => crate::text::str_eq(x.as_str(), y.as_str()),
            _ => false,
        };
        later || (same && self.usage.total_tokens > other.usage.total_tokens) || (same && self.usage.total_tokens
            == other.usage.total_tokens && text_less(self.name.as_str(), other.name.as_str()))
    }
}

pub open spec fn turns_sum(rows: Seq<ConversationRow>, n: nat) -> usize
    decreases n,
{
    if n == 0 {
        0
    } else {
        turns_sum(rows, (n - 1) as nat).saturating_add(rows[n - 1].turns)
    }
}

pub open spec fn indexed_count(rows: Seq<ConversationRow>, n: nat) -> nat
    decreases n,
{
    if n == 0 {
        0
    } else {
        indexed_count(rows, (n - 1) as nat) + if rows[n - 1].turns_indexed {
            1nat
        } else {
            0nat
        }
    }
}

/// `r` lists project `p`: its conversations ordered by latest activity, then
/// tokens, each as its row.
pub open spec fn project_row_of(p: Project, r: ProjectRow) -> bool {
    &&& r.name@ == p.name@
    &&& r.path@ == p.path@
    &&& opt_string_view(r.updated_at) == match p.updated_at_ms {
        Some(ms) => crate::dates::utc_rfc3339_text(ms as int),
        None => None,
    }
    &&& r.usage == p.usage
    &&& r.sessions == r.conversations@.len()
    &&& r.turns == turns_sum(r.conversations@, r.conversations@.len())
    &&& r.turn_sessions_indexed == indexed_count(r.conversations@, r.conversations@.len())
    &&& ({
        let sorted = ranked_order(p.conversations@, p.conversations@.len());
        &&& sorted.len() == r.conversations@.len()
        &&& forall|i: int| 0 <= i < sorted.len() ==> conversation_row_of(#[trigger] sorted[i], r.conversations@[i])
    })
}

/// The row of a project.
pub fn project_row(p: Project) -> (r: ProjectRow)
    ensures
        project_row_of(p, r),
{
    let ghost before = p;
    let Project { name, path, updated_at_ms, usage, conversations } = p;
    let sorted = sort_ranked(conversations);
    let ghost sorted_seq = sorted@;
    let mut rows: Vec<ConversationRow> = Vec::new();
    let mut remaining = sorted;
    let n = remaining.len();
    let mut k: usize = 0;
    let mut turns: usize = 0;
    let mut indexed: usize = 0;
    while remaining.len() > 0
        invariant
            k + remaining@.len() == n,
            n == sorted_seq.len(),
            remaining@ == sorted_seq.skip(k as int),
            rows@.len() == k,
            forall|q: int| 0 <= q < k ==> conversation_row_of(sorted_seq[q], #[trigger] rows@[q]),
            turns == turns_sum(rows@, k as nat),
            indexed == indexed_count(rows@, k as nat),
            indexed <= k,
        decreases remaining@.len(),
    {
        let c = remaining.remove(0);
        assert(c == sorted_seq[k as int]);
        assert(remaining@ =~= sorted_seq.skip(k + 1));
        let row = conversation_row(c);
        turns = turns.saturating_add(row.turns);
        if row.turns_indexed {
            indexed = indexed + 1;
        }
        let ghost before = rows@;
        rows.push(row);
        assert(forall|i: int| 0 <= i < k ==> rows@[i] == before[i]);
        proof {
            lemma_sums_same_prefix(rows@, before, k as nat);
            lemma_sums_prefix(rows@, k as nat);
        }
        k = k + 1;
    }
    let updated_at = match updated_at_ms {
        Some(ms) => crate::dates::utc_rfc3339(ms),
        None => None,
    };
    let sessions = rows.len();
    let r = ProjectRow { name, path, updated_at, sessions, turns, turn_sessions_indexed: indexed, usage, conversations: rows };
    assert(forall|i: int| 0 <= i < sorted_seq.len() ==> conversation_row_of(#[trigger] sorted_seq[i], r.conversations@[i]));
    r
}

proof fn lemma_sums_same_prefix(a: Seq<ConversationRow>, b: Seq<ConversationRow>, k: nat)
    requires
        k <= a.len(),
        k <= b.len(),
        forall|i: int| 0 <= i < k ==> a[i] == b[i],
    ensures
        turns_sum(a, k) == turns_sum(b, k),
        indexed_count(a, k) == indexed_count(b, k),
    decreases k,
{
    if k > 0 {
        lemma_sums_same_prefix(a, b, (k - 1) as nat);
    }
}

proof fn lemma_sums_prefix(rows: Seq<ConversationRow>, k: nat)
    requires
        k < rows.len(),
    ensures
        turns_sum(rows, (k + 1) as nat) == turns_sum(rows, k).saturating_add(rows[k as int].turns),
        indexed_count(rows, (k + 1) as nat) == indexed_count(rows, k) + if rows[k as int].turns_indexed {
            1nat
        } else {
            0nat
        },
{
}


/// A column of project rows summed, saturating at `usize::MAX`.
pub open spec fn rows_sum(rows: Seq<ProjectRow>, n: nat, column: spec_fn(ProjectRow) -> usize) -> usize
    decreases n,
{
    if n == 0 {
        0
    } else {
        rows_sum(rows, (n - 1) as nat, column).saturating_add(column(rows[n - 1]))
    }
}

/// The project report: totals over every counted call, and the projects
/// ordered by latest activity, then tokens, then name.
#[derive(Debug)]
pub struct ProjectUsage {
    pub pricing_updated_at: String,
    pub files_indexed: usize,
    pub sessions: usize,
    pub turns: usize,
    pub turn_sessions_indexed: usize,
    pub usage: Aggregate,
    pub projects: Vec<ProjectRow>,
}

/// `rows` lists the projects of `projects`, one row each, ordered; projects
/// that tie keep the order of their keys.
pub open spec fn project_rows_of(projects: Seq<(String, Project)>, rows: Seq<ProjectRow>) -> bool {
    &&& ranked_sorted(rows)
    &&& exists|listed: Seq<ProjectRow>|
        {
            &&& listed.len() == projects.len()
            &&& forall|i: int| 0 <= i < projects.len() ==> project_row_of(#[trigger] projects[i].1, listed[i])
            &&& rows == ranked_order(listed, listed.len())
        }
}

/// `r` reports aggregation `agg` of `files_indexed` logs.
pub open spec fn project_usage_of(agg: ProjectAggregation, files_indexed: usize, pricing_updated_at: Seq<char>, r: ProjectUsage) -> bool {
    &&& r.pricing_updated_at@ == pricing_updated_at
    &&& r.files_indexed == files_indexed
    &&& r.usage == agg.total
    &&& project_rows_of(agg.projects@, r.projects@)
    &&& r.sessions == rows_sum(r.projects@, r.projects@.len(), |p: ProjectRow| p.sessions)
    &&& r.turns == rows_sum(r.projects@, r.projects@.len(), |p: ProjectRow| p.turns)
    &&& r.turn_sessions_indexed == rows_sum(r.projects@, r.projects@.len(), |p: ProjectRow| p.turn_sessions_indexed)
}

proof fn lemma_rows_sum_step(rows: Seq<ProjectRow>, k: nat, column: spec_fn(ProjectRow) -> usize)
    requires
        k < rows.len(),
    ensures
        rows_sum(rows, (k + 1) as nat, column) == rows_sum(rows, k, column).saturating_add(column(rows[k as int])),
{
}

proof fn lemma_rows_sum_prefix(a: Seq<ProjectRow>, b: Seq<ProjectRow>, k: nat, column: spec_fn(ProjectRow) -> usize)
    requires
        k <= a.len(),
        k <= b.len(),
        forall|i: int| 0 <= i < k ==> a[i] == b[i],
    ensures
        rows_sum(a, k, column) == rows_sum(b, k, column),
    decreases k,
{
    if k > 0 {
        lemma_rows_sum_prefix(a, b, (k - 1) as nat, column);
    }
}

/// Orders the projects of an aggregation into the report.
pub fn project_usage(agg: ProjectAggregation, files_indexed: usize, pricing_updated_at: String) -> (r: ProjectUsage)
    ensures
        project_usage_of(agg, files_indexed, pricing_updated_at@, r),
{
    let ghost before = agg;
    let ProjectAggregation { total, projects } = agg;
    let mut listed: Vec<ProjectRow> = Vec::new();
    let mut rest = projects;
    let ghost all = rest@;
    let n = rest.len();
    let mut k: usize = 0;
    while rest.len() > 0
        invariant
            k + rest@.len() == n,
            n == all.len(),
            rest@ == all.skip(k as int),
            listed@.len() == k,
            forall|q: int| 0 <= q < k ==> project_row_of(all[q].1, #[trigger] listed@[q]),
        decreases rest@.len(),
    {
        let (_, p) = rest.remove(0);
        assert(rest@ =~= all.skip(k + 1));
        let row = project_row(p);
        listed.push(row);
        k = k + 1;
    }
    let ghost listed_seq = listed@;
    let rows = sort_ranked(listed);
    let mut sessions: usize = 0;
    let mut turns: usize = 0;
    let mut indexed: usize = 0;
    let mut i: usize = 0;
    while i < rows.len()
        invariant
            i <= rows@.len(),
            sessions == rows_sum(rows@, i as nat, |p: ProjectRow| p.sessions),
            turns == rows_sum(rows@, i as nat, |p: ProjectRow| p.turns),
            indexed == rows_sum(rows@, i as nat, |p: ProjectRow| p.turn_sessions_indexed),
        decreases rows@.len() - i,
    {
        proof {
            lemma_rows_sum_step(rows@, i as nat, |p: ProjectRow| p.sessions);
            lemma_rows_sum_step(rows@, i as nat, |p: ProjectRow| p.turns);
            lemma_rows_sum_step(rows@, i as nat, |p: ProjectRow| p.turn_sessions_indexed);
        }
        sessions = sessions.saturating_add(rows[i].sessions);
        turns = turns.saturating_add(rows[i].turns);
        indexed = indexed.saturating_add(rows[i].turn_sessions_indexed);
        i = i + 1;
    }
    let r = ProjectUsage {
        pricing_updated_at,
        files_indexed,
        sessions,
        turns,
        turn_sessions_indexed: indexed,
        usage: total,
        projects: rows,
    };
    assert(forall|q: int| 0 <= q < all.len() ==> project_row_of(#[trigger] all[q].1, listed_seq[q]));
    r
}

/// The project report over the indexed logs, given in the order of their
/// paths: `threads` is what the App Server lists, `canonical` pairs each
/// working directory with what it resolves to on disk, and usage is priced
/// as of `today`.
pub fn build_project_usage(
    files: &Vec<IndexedFile>,
    paths: &Vec<String>,
    threads: &Vec<ThreadMetadata>,
    canonical: &Vec<(String, String)>,
    active: &ActivePricing,
    today: &str,
) -> (r: ProjectUsage)
    requires
        pricing_rates_ok(active.versions@),
        files@.len() == paths@.len(),
    ensures
        exists|agg: ProjectAggregation|
            {
                let m = usage_files(files@, paths@, threads@, canonical@, files@.len(), *active, today@);
                &&& projects_ordered(agg.projects@)
                &&& agg.total == m.total
                &&& projects_view(agg.projects@) == m.projects
                &&& #[trigger] project_usage_of(agg, files@.len() as usize, crate::pricing::metadata_spec(active.versions@, crate::pricing::opt_view(active.updated_at), today@).1, r)
            },
{
    let agg = aggregate_projects(files, paths, threads, canonical, active, today);
    let ghost a = agg;
    let (_, updated_at) = crate::pricing::pricing_metadata(active, today);
    let r = project_usage(agg, files.len(), updated_at);
    assert(project_usage_of(a, files@.len() as usize, crate::pricing::metadata_spec(active.versions@, crate::pricing::opt_view(active.updated_at), today@).1, r));
    r
}


/// A session ID the turn detail accepts: at least eight characters, each an
/// ASCII letter or digit, `-` or `_`.
pub open spec fn valid_session_id(id: Seq<char>) -> bool {
    &&& id.len() >= 8
    &&& forall|k: int| 0 <= k < id.len() ==> crate::text::is_ascii_alnum(#[trigger] id[k]) || id[k] == '-' || id[k] == '_'
}

/// The first of the first `n` logs of session `id`.
pub open spec fn first_with_session(files: Seq<IndexedFile>, id: Seq<char>, n: nat) -> Option<int>
    decreases n,
{
    if n == 0 {
        None
    } else {
        match first_with_session(files, id, (n - 1) as nat) {
            Some(k) => Some(k),
            None => match files[n - 1].session_id {
                Some(s) => if s@ == id {
                    Some(n - 1)
                } else {
                    None
                },
                None => None,
            },
        }
    }
}

/// The turns of log `i` after its first `n` counted events, every event
/// counted (no call is passed over as already seen).
pub open spec fn session_turns(files: Seq<IndexedFile>, i: int, n: nat, active: ActivePricing, today: Seq<char>) -> Map<
    Seq<char>,
    TurnModel,
>
    decreases n,
{
    if n == 0 {
        Map::empty()
    } else {
        let e = crate::cost_report::counted_events(files, i)[n - 1];
        turn_step(session_turns(files, i, (n - 1) as nat, active, today), files[i], e, event_cost(active, e, today))
    }
}

/// `rows` lists the turns of log `i`, ordered as in the project report.
pub open spec fn session_turn_rows(files: Seq<IndexedFile>, i: int, active: ActivePricing, today: Seq<char>, rows: Seq<TurnRow>) -> bool {
    exists|turns: Seq<(String, TurnEntry)>|
        {
            &&& turns_ordered(turns)
            &&& turns_view(turns) == session_turns(
                files,
                i,
                crate::cost_report::counted_events(files, i).len(),
                active,
                today,
            )
            &&& #[trigger] turn_rows_of(turns, rows)
        }
}

/// The turns of one session.
#[derive(Debug)]
pub struct ProjectTurnUsage {
    pub session_id: String,
    pub turns: Vec<TurnRow>,
}

pub open spec fn invalid_session_message() -> Seq<char> {
    "Session ID 不合法"@
}

pub open spec fn missing_session_message(id: Seq<char>) -> Seq<char> {
    "没有找到 "@ + id + " 对应的本地 Session"@
}

fn session_id_ok(id: &str) -> (r: bool)
    ensures
        r == valid_session_id(id@),
{
    let chars = crate::text::chars_of(id);
    if chars.len() < 8 {
        return false;
    }
    let mut k: usize = 0;
    while k < chars.len()
        invariant
            k <= chars@.len(),
            chars@ == id@,
            forall|q: int| 0 <= q < k ==> crate::text::is_ascii_alnum(#[trigger] id@[q]) || id@[q] == '-' || id@[q] == '_',
        decreases chars@.len() - k,
    {
        let c = chars[k];
        if !(('0' <= c && c <= '9') || ('a' <= c && c <= 'z') || ('A' <= c && c <= 'Z') || c == '-' || c == '_') {
            return false;
        }
        k = k + 1;
    }
    true
}

fn find_session(files: &Vec<IndexedFile>, id: &str) -> (r: Option<usize>)
    ensures
        match first_with_session(files@, id@, files@.len()) {
            Some(k) => r matches Some(x) && x == k && k < files@.len(),
            None => r is None,
        },
{
    let mut k: usize = 0;
    while k < files.len()
        invariant
            k <= files@.len(),
            first_with_session(files@, id@, k as nat) is None,
        decreases files@.len() - k,
    {
        let hit = match &files[k].session_id {
            Some(s) => crate::text::str_eq(s.as_str(), id),
            None => false,
        };
        if hit {
            proof {
                lemma_first_with_session_sticks(files@, id@, (k + 1) as nat, files@.len());
            }
            return Some(k);
        }
        k = k + 1;
    }
    None
}

proof fn lemma_first_with_session_sticks(files: Seq<IndexedFile>, id: Seq<char>, k: nat, n: nat)
    requires
        k <= n,
        first_with_session(files, id, k) is Some,
    ensures
        first_with_session(files, id, n) == first_with_session(files, id, k),
    decreases n,
{
    if n > k {
        lemma_first_with_session_sticks(files, id, k, (n - 1) as nat);
    }
}

/// The turns of session `session_id` for its detail view: the first log of
/// that session in path order, without its replayed prefix, every call
/// counted, turns ordered as in the project report.
pub fn build_project_turn_usage(
    files: &Vec<IndexedFile>,
    session_id: &str,
    active: &ActivePricing,
    today: &str,
) -> (r: Result<ProjectTurnUsage, String>)
    requires
        pricing_rates_ok(active.versions@),
    ensures
        !valid_session_id(session_id@) ==> (r matches Err(m) && m@ == invalid_session_message()),
        valid_session_id(session_id@) && first_with_session(files@, session_id@, files@.len()) is None ==> (r matches Err(
            m,
        ) && m@ == missing_session_message(session_id@)),
        valid_session_id(session_id@) ==> (first_with_session(files@, session_id@, files@.len()) matches Some(i) ==> (r matches Ok(
            detail,
        ) && detail.session_id@ == session_id@ && session_turn_rows(files@, i, *active, today@, detail.turns@))),
{
    if !session_id_ok(session_id) {
        let m = crate::text::owned("Session ID 不合法");
        proof {
            reveal_strlit("Session ID 不合法");
        }
        return Err(m);
    }
    let i = match find_session(files, session_id) {
        Some(i) => i,
        None => {
            let m0 = crate::text::concat("没有找到 ", session_id);
            let m = crate::text::concat(m0.as_str(), " 对应的本地 Session");
            return Err(m);
        },
    };
    assert(first_with_session(files@, session_id@, files@.len()) == Some(i as int));
    let file = &files[i];
    let parent = find_parent(files.as_slice(), i);
    proof {
        crate::cost_report::lemma_parent_in_range(files@, i as int);
    }
    let parent_file: Option<&IndexedFile> = match parent {
        Some(j) => Some(&files[j]),
        None => None,
    };
    let skip = replayed_prefix_len(file, parent_file);
    let n = file.events.len();
    let start = if skip >= n { n } else { skip };
    let ghost counted = crate::cost_report::counted_events(files@, i as int);
    assert(skip == replayed_of(files@, i as int));
    let mut turns: Vec<(String, TurnEntry)> = Vec::new();
    proof {
        lemma_assoc_empty(turns@);
        assert(turns_view(turns@) =~= Map::<Seq<char>, TurnModel>::empty());
    }
    let mut j: usize = start;
    while j < n
        invariant
            start <= j <= n,
            n == file.events@.len(),
            *file == files@[i as int],
            counted == crate::cost_report::counted_events(files@, i as int),
            counted.len() == n - start,
            forall|q: int| 0 <= q < counted.len() ==> #[trigger] counted[q] == file.events@[start + q],
            pricing_rates_ok(active.versions@),
            turns_ordered(turns@),
            turns_view(turns@) == session_turns(files@, i as int, (j - start) as nat, *active, today@),
        decreases n - j,
    {
        assert(counted[(j - start) as int] == file.events@[j as int]);
        let e = &file.events[j];
        let cost = estimate_standard_api_cost_at(
            active,
            e.model.as_str(),
            e.input_tokens,
            e.cached_input_tokens,
            e.output_tokens,
            e.timestamp_ms,
            today,
        );
        count_turn(&mut turns, file, e, cost);
        j = j + 1;
    }
    let ghost final_turns = turns@;
    assert(turns_view(final_turns) == session_turns(files@, i as int, counted.len(), *active, today@));
    assert(first_with_session(files@, session_id@, files@.len()) == Some(i as int));
    let rows = turn_rows(turns);
    let detail = ProjectTurnUsage { session_id: crate::text::owned(session_id), turns: rows };
    assert(turn_rows_of(final_turns, detail.turns@));
    assert(session_turn_rows(files@, i as int, *active, today@, detail.turns@));
    Ok(detail)
}

} // verus!
