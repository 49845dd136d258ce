//! The cost estimate over every indexed session: token and cost totals per
//! day, per model and per day and model, each call counted once and usage
//! replayed into forked sessions left out.
use vstd::prelude::*;
use crate::assoc::{
    assoc_view, keys_ascending, lemma_assoc_empty, lemma_assoc_insert, lemma_assoc_set, lemma_value_at,
    locate,
};
use crate::local_usage::{add_cost, no_cost, CostTotals};
use crate::pricing::{
    estimate_standard_api_cost_at, estimate_spec, event_day, pricing_rates_ok, ActivePricing, CostBreakdown,
};
use crate::usage::{find_parent, parent_index, replayed_len, replayed_prefix_len, CostUsageEvent, IndexedFile};

verus! {

broadcast use vstd::string::group_string_axioms;

/// Token counts and cost of a set of events. Priced tokens are those of
/// events whose model has a rate; the cost covers those events only.
#[derive(Debug, Clone, Copy, PartialEq, Eq, Structural)]
pub struct Aggregate {
    pub input_tokens: u64,
    pub cached_input_tokens: u64,
    pub cache_write_input_tokens: u64,
    pub output_tokens: u64,
    pub total_tokens: u64,
    pub priced_tokens: u64,
    pub unpriced_tokens: u64,
    pub cost: CostTotals,
}

pub open spec fn zero_aggregate() -> Aggregate {
    Aggregate {
        input_tokens: 0,
        cached_input_tokens: 0,
        cache_write_input_tokens: 0,
        output_tokens: 0,
        total_tokens: 0,
        priced_tokens: 0,
        unpriced_tokens: 0,
        cost: no_cost(),
    }
}

/// `a` with one more event, at `cost` when its model has a rate. Counts are
/// capped at `u64::MAX`, costs at `u128::MAX`.
pub open spec fn with_event(a: Aggregate, e: CostUsageEvent, cost: Option<CostBreakdown>) -> Aggregate {
    Aggregate {
        input_tokens: a.input_tokens.saturating_add(e.input_tokens),
        cached_input_tokens: a.cached_input_tokens.saturating_add(e.cached_input_tokens),
        cache_write_input_tokens: a.cache_write_input_tokens.saturating_add(e.cache_write_input_tokens),
        output_tokens: a.output_tokens.saturating_add(e.output_tokens),
        total_tokens: a.total_tokens.saturating_add(e.total_tokens),
        priced_tokens: if cost is Some {
            a.priced_tokens.saturating_add(e.total_tokens)
        } else {
            a.priced_tokens
        },
        unpriced_tokens: if cost is Some {
            a.unpriced_tokens
        } else {
            a.unpriced_tokens.saturating_add(e.total_tokens)
        },
        cost: match cost {
            Some(c) => add_cost(a.cost, c),
            None => a.cost,
        },
    }
}

/// The sum of two aggregates.
pub open spec fn combined(a: Aggregate, b: Aggregate) -> Aggregate {
    Aggregate {
        input_tokens: a.input_tokens.saturating_add(b.input_tokens),
        cached_input_tokens: a.cached_input_tokens.saturating_add(b.cached_input_tokens),
        cache_write_input_tokens: a.cache_write_input_tokens.saturating_add(b.cache_write_input_tokens),
        output_tokens: a.output_tokens.saturating_add(b.output_tokens),
        total_tokens: a.total_tokens.saturating_add(b.total_tokens),
        priced_tokens: a.priced_tokens.saturating_add(b.priced_tokens),
        unpriced_tokens: a.unpriced_tokens.saturating_add(b.unpriced_tokens),
        cost: CostTotals {
            uncached_input: a.cost.uncached_input.saturating_add(b.cost.uncached_input),
            cached_input: a.cost.cached_input.saturating_add(b.cost.cached_input),
            output: a.cost.output.saturating_add(b.cost.output),
            total: a.cost.total.saturating_add(b.cost.total),
            cache_savings: a.cost.cache_savings.saturating_add(b.cost.cache_savings),
        },
    }
}

impl Aggregate {
    /// Nothing counted.
    pub fn zero() -> (r: Aggregate)
        ensures
            r == zero_aggregate(),
    {
        Aggregate {
            input_tokens: 0,
            cached_input_tokens: 0,
            cache_write_input_tokens: 0,
            output_tokens: 0,
            total_tokens: 0,
            priced_tokens: 0,
            unpriced_tokens: 0,
            cost: CostTotals { uncached_input: 0, cached_input: 0, output: 0, total: 0, cache_savings: 0 },
        }
    }

    /// Counts one event, at `cost` when its model has a rate.
    pub fn add_event(&mut self, event: &CostUsageEvent, cost: Option<CostBreakdown>)
        ensures
            *final(self) == with_event(*old(self), *event, cost),
    {
        self.input_tokens = self.input_tokens.saturating_add(event.input_tokens);
        self.cached_input_tokens = self.cached_input_tokens.saturating_add(event.cached_input_tokens);
        self.cache_write_input_tokens = self.cache_write_input_tokens.saturating_add(event.cache_write_input_tokens);
        self.output_tokens = self.output_tokens.saturating_add(event.output_tokens);
        self.total_tokens = self.total_tokens.saturating_add(event.total_tokens);
        match cost {
            Some(c) => {
                self.priced_tokens = self.priced_tokens.saturating_add(event.total_tokens);
                self.cost = CostTotals {
                    uncached_input: self.cost.uncached_input.saturating_add(c.uncached_input),
                    cached_input: self.cost.cached_input.saturating_add(c.cached_input),
                    output: self.cost.output.saturating_add(c.output),
                    total: self.cost.total.saturating_add(c.total),
                    cache_savings: self.cost.cache_savings.saturating_add(c.cache_savings),
                };
            },
            None => {
                self.unpriced_tokens = self.unpriced_tokens.saturating_add(event.total_tokens);
            },
        }
    }

    /// Adds another aggregate to this one.
    pub fn add_aggregate(&mut self, other: &Self)
        ensures
            *final(self) == combined(*old(self), *other),
    {
        self.input_tokens = self.input_tokens.saturating_add(other.input_tokens);
        self.cached_input_tokens = self.cached_input_tokens.saturating_add(other.cached_input_tokens);
        self.cache_write_input_tokens = self.cache_write_input_tokens.saturating_add(other.cache_write_input_tokens);
        self.output_tokens = self.output_tokens.saturating_add(other.output_tokens);
        self.total_tokens = self.total_tokens.saturating_add(other.total_tokens);
        self.priced_tokens = self.priced_tokens.saturating_add(other.priced_tokens);
        self.unpriced_tokens = self.unpriced_tokens.saturating_add(other.unpriced_tokens);
        self.cost = CostTotals {
            uncached_input: self.cost.uncached_input.saturating_add(other.cost.uncached_input),
            cached_input: self.cost.cached_input.saturating_add(other.cost.cached_input),
            output: self.cost.output.saturating_add(other.cost.output),
            total: self.cost.total.saturating_add(other.cost.total),
            cache_savings: self.cost.cache_savings.saturating_add(other.cost.cache_savings),
        };
    }
}

/// The same call: same instant, model and token counts.
pub open spec fn same_event(a: CostUsageEvent, b: CostUsageEvent) -> bool {
    &&& a.timestamp_ms == b.timestamp_ms
    &&& a.model@ == b.model@
    &&& a.input_tokens == b.input_tokens
    &&& a.cached_input_tokens == b.cached_input_tokens
    &&& a.cache_write_input_tokens == b.cache_write_input_tokens
    &&& a.output_tokens == b.output_tokens
    &&& a.total_tokens == b.total_tokens
}

/// The cost of an event at the rates in force on its day.
pub open spec fn event_cost(active: ActivePricing, e: CostUsageEvent, today: Seq<char>) -> Option<CostBreakdown> {
    estimate_spec(
        active.versions@,
        e.model@,
        e.input_tokens,
        e.cached_input_tokens,
        e.output_tokens,
        event_day(e.timestamp_ms, today),
    )
}

pub open spec fn or_zero(m: Map<Seq<char>, Aggregate>, k: Seq<char>) -> Aggregate {
    if m.contains_key(k) {
        m[k]
    } else {
        zero_aggregate()
    }
}

/// A day's aggregate and its aggregate per model.
pub type DayModel = (Aggregate, Map<Seq<char>, Aggregate>);

pub open spec fn or_empty_day(m: Map<Seq<char>, DayModel>, k: Seq<char>) -> DayModel {
    if m.contains_key(k) {
        m[k]
    } else {
        (zero_aggregate(), Map::empty())
    }
}

/// A day with one more event, counted in the day and under its model.
pub open spec fn day_after(day: DayModel, e: CostUsageEvent, c: Option<CostBreakdown>) -> DayModel {
    (with_event(day.0, e, c), day.1.insert(e.model@, with_event(or_zero(day.1, e.model@), e, c)))
}

/// What the estimate has gathered so far.
pub struct EstimateModel {
    pub seen: Seq<CostUsageEvent>,
    pub total: Aggregate,
    pub daily: Map<Seq<char>, DayModel>,
    pub models: Map<Seq<char>, Aggregate>,
    pub token_events: usize,
    pub duplicates: usize,
}

pub open spec fn empty_estimate() -> EstimateModel {
    EstimateModel {
        seen: Seq::empty(),
        total: zero_aggregate(),
        daily: Map::empty(),
        models: Map::empty(),
        token_events: 0,
        duplicates: 0,
    }
}

/// One event: a call already counted is a duplicate; a new one is added to
/// the total, to its day, to its model on that day and to its model.
pub open spec fn estimate_step(m: EstimateModel, e: CostUsageEvent, active: ActivePricing, today: Seq<char>) -> EstimateModel {
    if exists|k: int| 0 <= k < m.seen.len() && same_event(#[trigger] m.seen[k], e) {
        EstimateModel { duplicates: m.duplicates.saturating_add(1), ..m }
    } else {
        let c = event_cost(active, e, today);
        EstimateModel {
            seen: m.seen.push(e),
            total: with_event(m.total, e, c),
            daily: m.daily.insert(e.date@, day_after(or_empty_day(m.daily, e.date@), e, c)),
            models: m.models.insert(e.model@, with_event(or_zero(m.models, e.model@), e, c)),
            token_events: m.token_events.saturating_add(1),
            duplicates: m.duplicates,
        }
    }
}

pub open spec fn estimate_events(m: EstimateModel, events: Seq<CostUsageEvent>, n: nat, active: ActivePricing, today: Seq<char>) -> EstimateModel
    decreases n,
{
    if n == 0 {
        m
    } else {
        estimate_step(estimate_events(m, events, (n - 1) as nat, active, today), events[n - 1], active, today)
    }
}

/// How many leading events of `files[i]` replay its parent's usage.
pub open spec fn replayed_of(files: Seq<IndexedFile>, i: int) -> int {
    replayed_len(
        files[i],
        match parent_index(files, i) {
            Some(j) => Some(files[j]),
            None => None,
        },
    )
}

/// The events of `files[i]` that count: those after its replayed prefix.
pub open spec fn counted_events(files: Seq<IndexedFile>, i: int) -> Seq<CostUsageEvent> {
    let events = files[i].events@;
    let skip = replayed_of(files, i);
    if skip >= events.len() {
        Seq::empty()
    } else {
        events.subrange(skip, events.len() as int)
    }
}

/// The estimate over the first `n` files, file after file.
pub open spec fn estimate_files(files: Seq<IndexedFile>, n: nat, active: ActivePricing, today: Seq<char>) -> EstimateModel
    decreases n,
{
    if n == 0 {
        empty_estimate()
    } else {
        let events = counted_events(files, n - 1);
        estimate_events(estimate_files(files, (n - 1) as nat, active, today), events, events.len(), active, today)
    }
}

/// Replayed events of the first `n` files, capped at `usize::MAX`.
pub open spec fn replayed_sum(files: Seq<IndexedFile>, n: nat) -> usize
    decreases n,
{
    if n == 0 {
        0
    } else {
        let skip = replayed_of(files, n - 1);
        let counted: usize = if skip >= files[n - 1].events@.len() {
            files[n - 1].events@.len() as usize
        } else {
            skip as usize
        };
        replayed_sum(files, (n - 1) as nat).saturating_add(counted)
    }
}

/// Malformed lines of the first `n` files, capped at `u64::MAX`.
pub open spec fn malformed_total(files: Seq<IndexedFile>, n: nat) -> u64
    decreases n,
{
    if n == 0 {
        0
    } else {
        malformed_total(files, (n - 1) as nat).saturating_add(files[n - 1].malformed_lines)
    }
}


/// A day's aggregate and its aggregate per model, models in order of name.
#[derive(Debug)]
pub struct DayEntry {
    pub usage: Aggregate,
    pub models: Vec<(String, Aggregate)>,
}

/// The estimate over all indexed sessions.
#[derive(Debug)]
pub struct CostEstimate {
    pub total: Aggregate,
    pub daily: Vec<(String, DayEntry)>,
    pub models: Vec<(String, Aggregate)>,
    pub token_events: usize,
    pub duplicate_events_skipped: usize,
    pub replayed_events_skipped: usize,
    pub malformed_lines: u64,
    /// The first and last day with usage; `None` when nothing was counted.
    pub coverage_start: Option<String>,
    pub coverage_end: Option<String>,
    /// Logs in the index, logs read afresh, and logs whose earlier entry was kept.
    pub files_indexed: usize,
    pub files_scanned: usize,
    pub files_reused: usize,
}

/// How many of the first `n` flags are set.
pub open spec fn count_set(flags: Seq<bool>, n: nat) -> nat
    decreases n,
{
    if n == 0 {
        0
    } else {
        count_set(flags, (n - 1) as nat) + if flags[n - 1] {
            1nat
        } else {
            0nat
        }
    }
}

proof fn lemma_count_set_bound(flags: Seq<bool>, n: nat)
    requires
        n <= flags.len(),
    ensures
        count_set(flags, n) <= n,
    decreases n,
{
    if n > 0 {
        lemma_count_set_bound(flags, (n - 1) as nat);
    }
}

/// The tokens of the days listed, summed.
pub open spec fn day_tokens(days: Seq<(String, DayEntry)>) -> int
    decreases days.len(),
{
    if days.len() == 0 {
        0
    } else {
        day_tokens(days.drop_last()) + days.last().1.usage.total_tokens
    }
}

proof fn lemma_day_tokens_facts(days: Seq<(String, DayEntry)>)
    ensures
        day_tokens(days) >= 0,
        forall|i: int| 0 <= i < days.len() ==> #[trigger] days[i].1.usage.total_tokens <= day_tokens(days),
    decreases days.len(),
{
    if days.len() > 0 {
        lemma_day_tokens_facts(days.drop_last());
        assert forall|i: int| 0 <= i < days.len() implies #[trigger] days[i].1.usage.total_tokens <= day_tokens(days) by {
            if i < days.len() - 1 {
                assert(days[i] == days.drop_last()[i]);
            }
        }
    }
}

proof fn lemma_day_tokens_update(days: Seq<(String, DayEntry)>, i: int, x: (String, DayEntry))
    requires
        0 <= i < days.len(),
    ensures
        day_tokens(days.update(i, x)) == day_tokens(days) - days[i].1.usage.total_tokens + x.1.usage.total_tokens,
    decreases days.len(),
{
    if i < days.len() - 1 {
        assert(days.update(i, x).drop_last() =~= days.drop_last().update(i, x));
        lemma_day_tokens_update(days.drop_last(), i, x);
    } else {
        assert(days.update(i, x).drop_last() =~= days.drop_last());
    }
}

proof fn lemma_day_tokens_insert(days: Seq<(String, DayEntry)>, p: int, x: (String, DayEntry))
    requires
        0 <= p <= days.len(),
    ensures
        day_tokens(days.insert(p, x)) == day_tokens(days) + x.1.usage.total_tokens,
    decreases days.len(),
{
    if p < days.len() {
        assert(days.insert(p, x).drop_last() =~= days.drop_last().insert(p, x));
        lemma_day_tokens_insert(days.drop_last(), p, x);
    } else {
        assert(days.insert(p, x).drop_last() =~= days);
    }
}

pub open spec fn day_view(d: DayEntry) -> DayModel {
    (d.usage, assoc_view(d.models@))
}

pub open spec fn day_views(v: Seq<(String, DayEntry)>) -> Map<Seq<char>, DayModel> {
    assoc_view(v).map_values(|d: DayEntry| day_view(d))
}

/// Days in order of date, each with its models in order of name.
pub open spec fn days_ordered(v: Seq<(String, DayEntry)>) -> bool {
    &&& keys_ascending(v)
    &&& forall|i: int| 0 <= i < v.len() ==> keys_ascending(#[trigger] v[i].1.models@)
}

/// Adds an event to the aggregate of `name`, creating it if needed.
fn add_to_named(list: &mut Vec<(String, Aggregate)>, name: &str, event: &CostUsageEvent, cost: Option<CostBreakdown>)
    requires
        keys_ascending(old(list)@),
    ensures
        keys_ascending(final(list)@),
        assoc_view(final(list)@) == assoc_view(old(list)@).insert(
            name@,
            with_event(or_zero(assoc_view(old(list)@), name@), *event, cost),
        ),
{
    let ghost before = list@;
    match locate(list, name) {
        Ok(i) => {
            proof {
                lemma_value_at(before, i as int);
            }
            let (key, mut aggregate) = list.remove(i);
            aggregate.add_event(event, cost);
            list.insert(i, (key, aggregate));
            assert(list@ =~= before.update(i as int, (before[i as int].0, aggregate)));
            proof {
                lemma_assoc_set(before, i as int, aggregate);
            }
        },
        Err(p) => {
            let mut aggregate = Aggregate::zero();
            aggregate.add_event(event, cost);
            let key = name.to_owned();
            proof {
                lemma_assoc_insert(before, p as int, key, aggregate);
            }
            list.insert(p, (key, aggregate));
        },
    }
}

/// Adds an event to its day and to its model on that day.
fn add_to_day(days: &mut Vec<(String, DayEntry)>, event: &CostUsageEvent, cost: Option<CostBreakdown>)
    requires
        days_ordered(old(days)@),
    ensures
        days_ordered(final(days)@),
        day_views(final(days)@) == day_views(old(days)@).insert(
            event.date@,
            day_after(or_empty_day(day_views(old(days)@), event.date@), *event, cost),
        ),
        or_empty_day(day_views(old(days)@), event.date@).0.total_tokens <= day_tokens(old(days)@),
        day_tokens(final(days)@) == day_tokens(old(days)@) - or_empty_day(day_views(old(days)@), event.date@).0.total_tokens
            + with_event(or_empty_day(day_views(old(days)@), event.date@).0, *event, cost).total_tokens,
{
    let ghost before = days@;
    proof {
        lemma_day_tokens_facts(before);
    }
    match locate(days, event.date.as_str()) {
        Ok(i) => {
            proof {
                lemma_value_at(before, i as int);
            }
            let (key, mut entry) = days.remove(i);
            assert(keys_ascending(entry.models@)) by {
                assert(before[i as int].1 == entry);
            }
            entry.usage.add_event(event, cost);
            add_to_named(&mut entry.models, event.model.as_str(), event, cost);
            let ghost updated = entry;
            days.insert(i, (key, entry));
            assert(days@ =~= before.update(i as int, (before[i as int].0, updated)));
            proof {
                lemma_assoc_set(before, i as int, updated);
                lemma_day_tokens_update(before, i as int, (before[i as int].0, updated));
                assert(day_views(before)[event.date@] == day_view(before[i as int].1));
                assert forall|k: int| 0 <= k < days@.len() implies keys_ascending(#[trigger] days@[k].1.models@) by {
                    if k != i {
                        assert(days@[k] == before[k]);
                    }
                }
                assert(day_views(days@) =~= day_views(before).insert(event.date@, day_view(updated)));
            }
        },
        Err(p) => {
            let mut models: Vec<(String, Aggregate)> = Vec::new();
            proof {
                lemma_assoc_empty(models@);
            }
            add_to_named(&mut models, event.model.as_str(), event, cost);
            let mut usage = Aggregate::zero();
            usage.add_event(event, cost);
            let entry = DayEntry { usage, models };
            let key = event.date.clone();
            proof {
                lemma_assoc_insert(before, p as int, key, entry);
            }
            let ghost inserted = entry;
            let ghost pair = (key, entry);
            days.insert(p, (key, entry));
            proof {
                lemma_day_tokens_insert(before, p as int, pair);
                assert(days@ == before.insert(p as int, pair));
                assert(!day_views(before).contains_key(event.date@));
                assert forall|k: int| 0 <= k < days@.len() implies keys_ascending(#[trigger] days@[k].1.models@) by {
                    if k < p {
                        assert(days@[k] == before[k]);
                    } else if k > p {
                        assert(days@[k] == before[k - 1]);
                    }
                }
                assert(!crate::assoc::has_key(before, event.date@));
                assert(day_views(days@) =~= day_views(before).insert(event.date@, day_view(inserted)));
            }
        },
    }
}

/// The estimate as the code keeps it.
struct Tally<'a> {
    seen: Vec<&'a CostUsageEvent>,
    total: Aggregate,
    days: Vec<(String, DayEntry)>,
    models: Vec<(String, Aggregate)>,
    token_events: usize,
    duplicates: usize,
}

spec fn tally_view(t: Tally) -> EstimateModel {
    EstimateModel {
        seen: t.seen@.map_values(|e: &CostUsageEvent| *e),
        total: t.total,
        daily: day_views(t.days@),
        models: assoc_view(t.models@),
        token_events: t.token_events,
        duplicates: t.duplicates,
    }
}

spec fn tally_ok(t: Tally) -> bool {
    &&& days_ordered(t.days@)
    &&& keys_ascending(t.models@)
    &&& (t.total.total_tokens < u64::MAX ==> day_tokens(t.days@) == t.total.total_tokens)
}

fn tally_event<'a>(t: &mut Tally<'a>, e: &'a CostUsageEvent, active: &ActivePricing, today: &str)
    requires
        pricing_rates_ok(active.versions@),
        tally_ok(*old(t)),
    ensures
        tally_ok(*final(t)),
        tally_view(*final(t)) == estimate_step(tally_view(*old(t)), *e, *active, today@),
{
    let ghost seen_events = t.seen@.map_values(|x: &CostUsageEvent| *x);
    let mut k: usize = 0;
    while k < t.seen.len()
        invariant
            k <= t.seen@.len(),
            *t == *old(t),
            tally_ok(*t),
            seen_events == t.seen@.map_values(|x: &CostUsageEvent| *x),
            forall|q: int| 0 <= q < k ==> !same_event(#[trigger] seen_events[q], *e),
        decreases t.seen@.len() - k,
    {
        let s = t.seen[k];
        if s.timestamp_ms == e.timestamp_ms && crate::text::str_eq(s.model.as_str(), e.model.as_str())
            && s.input_tokens == e.input_tokens && s.cached_input_tokens == e.cached_input_tokens
            && s.cache_write_input_tokens == e.cache_write_input_tokens && s.output_tokens == e.output_tokens
            && s.total_tokens == e.total_tokens {
            assert(same_event(seen_events[k as int], *e));
            t.duplicates = t.duplicates.saturating_add(1);
            return;
        }
        k = k + 1;
    }
    let cost = estimate_standard_api_cost_at(
        active,
        e.model.as_str(),
        e.input_tokens,
        e.cached_input_tokens,
        e.output_tokens,
        e.timestamp_ms,
        today,
    );
    t.total.add_event(e, cost);
    add_to_day(&mut t.days, e, cost);
    add_to_named(&mut t.models, e.model.as_str(), e, cost);
    t.token_events = t.token_events.saturating_add(1);
    t.seen.push(e);
    assert(t.seen@.map_values(|x: &CostUsageEvent| *x) =~= seen_events.push(*e));
}

/// The parent a log names, when found, is one of the logs.
pub proof fn lemma_parent_in_range(files: Seq<IndexedFile>, i: int)
    requires
        0 <= i < files.len(),
    ensures
        parent_index(files, i) matches Some(j) ==> 0 <= j < files.len(),
{
    match files[i].parent_id {
        Some(pid) => lemma_last_with_session_range(files, pid@, files.len() as int),
        None => {},
    }
}

proof fn lemma_last_with_session_range(files: Seq<IndexedFile>, id: Seq<char>, n: int)
    requires
        n <= files.len(),
    ensures
        crate::usage::last_with_session(files, id, n) matches Some(j) ==> 0 <= j < n,
    decreases n,
{
    if n > 0 {
        lemma_last_with_session_range(files, id, n - 1);
    }
}

/// The cost estimate over indexed session logs, taken in the order given (the
/// order of their paths): the replayed prefix of a fork is skipped, each call
/// is counted once, and each is priced at the rates in force on its day.
///
/// `reused[i]` says whether the index entry of `files[i]` was kept from the
/// previous index rather than read afresh from the log.
pub fn estimate_costs(files: &Vec<IndexedFile>, reused: &Vec<bool>, active: &ActivePricing, today: &str) -> (r: CostEstimate)
    requires
        pricing_rates_ok(active.versions@),
        reused@.len() == files@.len(),
    ensures
        ({
            let m = estimate_files(files@, files@.len(), *active, today@);
            &&& r.total == m.total
            &&& days_ordered(r.daily@)
            &&& day_views(r.daily@) == m.daily
            &&& keys_ascending(r.models@)
            &&& assoc_view(r.models@) == m.models
            &&& r.token_events == m.token_events
            &&& r.duplicate_events_skipped == m.duplicates
            &&& r.replayed_events_skipped == replayed_sum(files@, files@.len())
            &&& r.malformed_lines == malformed_total(files@, files@.len())
        }),
        r.daily@.len() == 0 ==> r.coverage_start is None && r.coverage_end is None,
        r.daily@.len() > 0 ==> (r.coverage_start matches Some(d) && d@ == r.daily@[0].0@),
        r.daily@.len() > 0 ==> (r.coverage_end matches Some(d) && d@ == r.daily@.last().0@),
        r.files_indexed == files@.len(),
        r.files_reused == count_set(reused@, reused@.len()),
        r.files_indexed == r.files_scanned + r.files_reused,
        r.total.total_tokens < u64::MAX ==> day_tokens(r.daily@) == r.total.total_tokens,
        r.total.total_tokens < u64::MAX ==> r.total.total_tokens == r.total.priced_tokens + r.total.unpriced_tokens,
{
    let mut t = Tally {
        seen: Vec::new(),
        total: Aggregate::zero(),
        days: Vec::new(),
        models: Vec::new(),
        token_events: 0,
        duplicates: 0,
    };
    proof {
        lemma_assoc_empty(t.days@);
        lemma_assoc_empty(t.models@);
        assert(day_views(t.days@) =~= Map::<Seq<char>, DayModel>::empty());
        assert(t.seen@.map_values(|x: &CostUsageEvent| *x) =~= Seq::<CostUsageEvent>::empty());
    }
    let mut replayed: usize = 0;
    let mut malformed: u64 = 0;
    let mut i: usize = 0;
    while i < files.len()
        invariant
            i <= files@.len(),
            pricing_rates_ok(active.versions@),
            tally_ok(t),
            tally_view(t) == estimate_files(files@, i as nat, *active, today@),
            replayed == replayed_sum(files@, i as nat),
            malformed == malformed_total(files@, i as nat),
        decreases files@.len() - i,
    {
        let parent = find_parent(files.as_slice(), i);
        proof {
            lemma_parent_in_range(files@, i as int);
        }
        let parent_file: Option<&IndexedFile> = match parent {
            Some(j) => Some(&files[j]),
            None => None,
        };
        let skip = replayed_prefix_len(&files[i], parent_file);
        let file = &files[i];
        let n = file.events.len();
        let start = if skip >= n { n } else { skip };
        let ghost base = tally_view(t);
        let ghost counted = counted_events(files@, i as int);
        assert(skip == replayed_of(files@, i as int));
        let mut j: usize = start;
        while j < n
            invariant
                start <= j <= n,
                n == file.events@.len(),
                *file == files@[i as int],
                counted == counted_events(files@, i as int),
                counted.len() == n - start,
                forall|q: int| 0 <= q < counted.len() ==> #[trigger] counted[q] == file.events@[start + q],
                pricing_rates_ok(active.versions@),
                tally_ok(t),
                tally_view(t) == estimate_events(base, counted, (j - start) as nat, *active, today@),
            decreases n - j,
        {
            assert(counted[(j - start) as int] == file.events@[j as int]);
            tally_event(&mut t, &file.events[j], active, today);
            j = j + 1;
        }
        replayed = replayed.saturating_add(start);
        malformed = malformed.saturating_add(file.malformed_lines);
        i = i + 1;
    }
    let mut files_reused: usize = 0;
    let mut k: usize = 0;
    while k < reused.len()
        invariant
            k <= reused@.len(),
            files_reused == count_set(reused@, k as nat),
            files_reused <= k,
        decreases reused@.len() - k,
    {
        if reused[k] {
            files_reused = files_reused + 1;
        }
        k = k + 1;
    }
    proof {
        lemma_files_split(files@, files@.len(), *active, today@);
    }
    let Tally { seen: _, total, days, models, token_events, duplicates } = t;
    let coverage_start = if days.len() > 0 {
        Some(days[0].0.clone())
    } else {
        None
    };
    let coverage_end = if days.len() > 0 {
        Some(days[days.len() - 1].0.clone())
    } else {
        None
    };
    CostEstimate {
        total,
        daily: days,
        models,
        token_events,
        duplicate_events_skipped: duplicates,
        replayed_events_skipped: replayed,
        malformed_lines: malformed,
        coverage_start,
        coverage_end,
        files_indexed: files.len(),
        files_scanned: files.len() - files_reused,
        files_reused,
    }
}

/// While the total has not reached `u64::MAX`, it is the priced tokens plus
/// the unpriced ones.
pub open spec fn tokens_split(a: Aggregate) -> bool {
    a.total_tokens < u64::MAX ==> a.total_tokens == a.priced_tokens + a.unpriced_tokens
}

proof fn lemma_with_event_split(a: Aggregate, e: CostUsageEvent, c: Option<CostBreakdown>)
    requires
        tokens_split(a),
    ensures
        tokens_split(with_event(a, e, c)),
{
}

proof fn lemma_events_split(m: EstimateModel, events: Seq<CostUsageEvent>, n: nat, active: ActivePricing, today: Seq<char>)
    requires
        tokens_split(m.total),
    ensures
        tokens_split(estimate_events(m, events, n, active, today).total),
    decreases n,
{
    if n > 0 {
        let prev = estimate_events(m, events, (n - 1) as nat, active, today);
        lemma_events_split(m, events, (n - 1) as nat, active, today);
        lemma_with_event_split(prev.total, events[n - 1], event_cost(active, events[n - 1], today));
    }
}

proof fn lemma_files_split(files: Seq<IndexedFile>, n: nat, active: ActivePricing, today: Seq<char>)
    ensures
        tokens_split(estimate_files(files, n, active, today).total),
    decreases n,
{
    if n > 0 {
        lemma_files_split(files, (n - 1) as nat, active, today);
        let events = counted_events(files, n - 1);
        lemma_events_split(estimate_files(files, (n - 1) as nat, active, today), events, events.len(), active, today);
    }
}

/// Every token counted is either priced or unpriced: the estimate's total
/// tokens are its priced tokens plus its unpriced ones, as long as the total
/// has not reached `u64::MAX`.
pub proof fn law_total_is_priced_plus_unpriced(files: Seq<IndexedFile>, active: ActivePricing, today: Seq<char>)
    requires
        estimate_files(files, files.len(), active, today).total.total_tokens < u64::MAX,
    ensures
        ({
            let t = estimate_files(files, files.len(), active, today).total;
            t.total_tokens == t.priced_tokens + t.unpriced_tokens
        }),
{
    lemma_files_split(files, files.len(), active, today);
}


/// The first entry of `previous` under `path`, among the first `n`.
pub open spec fn first_entry(previous: Seq<(String, IndexedFile)>, path: Seq<char>, n: nat) -> Option<int>
    decreases n,
{
    if n == 0 {
        None
    } else {
        match first_entry(previous, path, (n - 1) as nat) {
            Some(i) => Some(i),
            None => if previous[n - 1].0@ == path {
                Some(n - 1)
            } else {
                None
            },
        }
    }
}

/// Whether a log's entry in the previous index can be kept: the log's path
/// has an entry there (the first one counts), and the log still has the length
/// and modification time that the entry recorded. Otherwise the log is read
/// afresh.
pub fn reusable_entry(previous: &Vec<(String, IndexedFile)>, path: &str, length: u64, modified_ms: u128) -> (r: Option<usize>)
    ensures
        match first_entry(previous@, path@, previous@.len()) {
            Some(i) => if previous@[i].1.length == length && previous@[i].1.modified_ms == modified_ms {
                r == Some(i as usize)
            } else {
                r is None
            },
            None => r is None,
        },
{
    let mut i: usize = 0;
    while i < previous.len()
        invariant
            i <= previous@.len(),
            first_entry(previous@, path@, i as nat) is None,
        decreases previous@.len() - i,
    {
        if crate::text::str_eq(previous[i].0.as_str(), path) {
            proof {
                lemma_first_entry_stays(previous@, path@, (i + 1) as nat, previous@.len());
            }
            if previous[i].1.length == length && previous[i].1.modified_ms == modified_ms {
                return Some(i);
            }
            return None;
        }
        i = i + 1;
    }
    None
}

proof fn lemma_first_entry_stays(previous: Seq<(String, IndexedFile)>, path: Seq<char>, n: nat, m: nat)
    requires
        n <= m <= previous.len(),
        first_entry(previous, path, n) is Some,
    ensures
        first_entry(previous, path, m) == first_entry(previous, path, n),
    decreases m - n,
{
    if m > n {
        lemma_first_entry_stays(previous, path, n, (m - 1) as nat);
    }
}

/// The names, in order, of the aggregates with unpriced tokens among the first `n`.
pub open spec fn unpriced_names(models: Seq<(String, Aggregate)>, n: nat) -> Seq<Seq<char>>
    decreases n,
{
    if n == 0 {
        Seq::empty()
    } else if models[n - 1].1.unpriced_tokens > 0 {
        unpriced_names(models, (n - 1) as nat).push(models[n - 1].0@)
    } else {
        unpriced_names(models, (n - 1) as nat)
    }
}

/// Names joined by `、`.
pub open spec fn joined(names: Seq<Seq<char>>) -> Seq<char>
    decreases names.len(),
{
    if names.len() == 0 {
        Seq::empty()
    } else if names.len() == 1 {
        names[0]
    } else {
        joined(names.drop_last()) + "、"@ + names.last()
    }
}

/// The estimate's warnings: lines that could not be read, and models
/// without a rate.
pub open spec fn estimate_warnings(malformed_lines: u64, models: Seq<(String, Aggregate)>) -> Seq<Seq<char>> {
    let unpriced = unpriced_names(models, models.len());
    (if malformed_lines > 0 {
        seq![crate::text::decimal(malformed_lines as nat) + " 行本地日志无法解析，已跳过；不会影响 Codex 本身"@]
    } else {
        Seq::empty()
    }) + if unpriced.len() > 0 {
        seq![joined(unpriced) + " 暂无公开 API 单价，相关 Token 未计入金额"@]
    } else {
        Seq::empty()
    }
}

pub fn cost_warnings(estimate: &CostEstimate) -> (r: Vec<String>)
    ensures
        r@.map_values(|w: String| w@) == estimate_warnings(estimate.malformed_lines, estimate.models@),
{
    let mut warnings: Vec<String> = Vec::new();
    if estimate.malformed_lines > 0 {
        let mut message = crate::text::decimal_string(estimate.malformed_lines as u128);
        message.append(" 行本地日志无法解析，已跳过；不会影响 Codex 本身");
        warnings.push(message);
    }
    let ghost first = warnings@.map_values(|w: String| w@);
    let mut list = String::new();
    let mut any = false;
    let mut k: usize = 0;
    while k < estimate.models.len()
        invariant
            k <= estimate.models@.len(),
            any == (unpriced_names(estimate.models@, k as nat).len() > 0),
            list@ == joined(unpriced_names(estimate.models@, k as nat)),
        decreases estimate.models@.len() - k,
    {
        if estimate.models[k].1.unpriced_tokens > 0 {
            let ghost names = unpriced_names(estimate.models@, k as nat);
            if any {
                list.append("、");
            }
            list.append(estimate.models[k].0.as_str());
            let ghost next = names.push(estimate.models@[k as int].0@);
            assert(next.drop_last() =~= names);
            any = true;
        }
        k = k + 1;
    }
    if any {
        list.append(" 暂无公开 API 单价，相关 Token 未计入金额");
        let ghost before = warnings@;
        warnings.push(list);
        assert(warnings@.map_values(|w: String| w@) =~= before.map_values(|w: String| w@).push(list@));
    }
    assert(warnings@.map_values(|w: String| w@) =~= estimate_warnings(estimate.malformed_lines, estimate.models@));
    warnings
}

} // verus!

verus! {

/// `x`, or `u64::MAX` when it is larger.
pub open spec fn capped(x: int) -> int {
    if x > u64::MAX {
        u64::MAX as int
    } else {
        x
    }
}

/// `x`, or `u128::MAX` when it is larger.
pub open spec fn capped_wide(x: int) -> int {
    if x > u128::MAX {
        u128::MAX as int
    } else {
        x
    }
}

/// Counting an event adds each of its token counts to the aggregate's, up to
/// `u64::MAX`; its total goes to the priced tokens when it has a cost and to
/// the unpriced ones otherwise; its cost, when it has one, is added part by
/// part, up to `u128::MAX`.
pub proof fn law_event_adds_its_tokens(a: Aggregate, e: CostUsageEvent, cost: Option<CostBreakdown>)
    ensures
        with_event(a, e, cost).input_tokens == capped(a.input_tokens + e.input_tokens),
        with_event(a, e, cost).cached_input_tokens == capped(a.cached_input_tokens + e.cached_input_tokens),
        with_event(a, e, cost).cache_write_input_tokens == capped(
            a.cache_write_input_tokens + e.cache_write_input_tokens,
        ),
        with_event(a, e, cost).output_tokens == capped(a.output_tokens + e.output_tokens),
        with_event(a, e, cost).total_tokens == capped(a.total_tokens + e.total_tokens),
        cost is Some ==> with_event(a, e, cost).priced_tokens == capped(a.priced_tokens + e.total_tokens)
            && with_event(a, e, cost).unpriced_tokens == a.unpriced_tokens,
        cost is None ==> with_event(a, e, cost).unpriced_tokens == capped(a.unpriced_tokens + e.total_tokens)
            && with_event(a, e, cost).priced_tokens == a.priced_tokens && with_event(a, e, cost).cost == a.cost,
        cost matches Some(c) ==> {
            let t = with_event(a, e, cost).cost;
            &&& t.uncached_input == capped_wide(a.cost.uncached_input + c.uncached_input)
            &&& t.cached_input == capped_wide(a.cost.cached_input + c.cached_input)
            &&& t.output == capped_wide(a.cost.output + c.output)
            &&& t.total == capped_wide(a.cost.total + c.total)
            &&& t.cache_savings == capped_wide(a.cost.cache_savings + c.cache_savings)
        },
{
}

/// Which token count `k` names: input, cached input, cache-write input,
/// output, or total.
pub open spec fn event_count(e: CostUsageEvent, k: int) -> int {
    if k == 0 {
        e.input_tokens as int
    } else if k == 1 {
        e.cached_input_tokens as int
    } else if k == 2 {
        e.cache_write_input_tokens as int
    } else if k == 3 {
        e.output_tokens as int
    } else {
        e.total_tokens as int
    }
}

pub open spec fn aggregate_count(a: Aggregate, k: int) -> int {
    if k == 0 {
        a.input_tokens as int
    } else if k == 1 {
        a.cached_input_tokens as int
    } else if k == 2 {
        a.cache_write_input_tokens as int
    } else if k == 3 {
        a.output_tokens as int
    } else {
        a.total_tokens as int
    }
}

/// Count `k` summed over events.
pub open spec fn events_sum(s: Seq<CostUsageEvent>, k: int) -> int
    decreases s.len(),
{
    if s.len() == 0 {
        0
    } else {
        events_sum(s.drop_last(), k) + event_count(s.last(), k)
    }
}

pub open spec fn sums_match(m: EstimateModel, k: int) -> bool {
    aggregate_count(m.total, k) < u64::MAX ==> aggregate_count(m.total, k) == events_sum(m.seen, k)
}

proof fn lemma_step_sums(m: EstimateModel, e: CostUsageEvent, active: ActivePricing, today: Seq<char>, k: int)
    requires
        sums_match(m, k),
    ensures
        sums_match(estimate_step(m, e, active, today), k),
{
    let n = estimate_step(m, e, active, today);
    if n.seen != m.seen {
        assert(n.seen == m.seen.push(e));
        assert(n.seen.drop_last() == m.seen);
        law_event_adds_its_tokens(m.total, e, event_cost(active, e, today));
    }
}

proof fn lemma_events_sums(m: EstimateModel, events: Seq<CostUsageEvent>, n: nat, active: ActivePricing, today: Seq<char>, k: int)
    requires
        sums_match(m, k),
    ensures
        sums_match(estimate_events(m, events, n, active, today), k),
    decreases n,
{
    if n > 0 {
        lemma_events_sums(m, events, (n - 1) as nat, active, today, k);
        lemma_step_sums(estimate_events(m, events, (n - 1) as nat, active, today), events[n - 1], active, today, k);
    }
}

proof fn lemma_files_sums(files: Seq<IndexedFile>, n: nat, active: ActivePricing, today: Seq<char>, k: int)
    ensures
        sums_match(estimate_files(files, n, active, today), k),
    decreases n,
{
    if n > 0 {
        lemma_files_sums(files, (n - 1) as nat, active, today, k);
        let events = counted_events(files, n - 1);
        lemma_events_sums(estimate_files(files, (n - 1) as nat, active, today), events, events.len(), active, today, k);
    }
}

/// The estimate's token counts are the sums over the events it counted (each
/// call once, replayed usage left out): its input, cached input, cache-write
/// input, output and total tokens each equal the sum of that count over the
/// counted events, as long as the count has not reached `u64::MAX`.
pub proof fn law_totals_sum_counted_events(files: Seq<IndexedFile>, active: ActivePricing, today: Seq<char>, k: int)
    requires
        0 <= k <= 4,
        aggregate_count(estimate_files(files, files.len(), active, today).total, k) < u64::MAX,
    ensures
        aggregate_count(estimate_files(files, files.len(), active, today).total, k) == events_sum(
            estimate_files(files, files.len(), active, today).seen,
            k,
        ),
{
    lemma_files_sums(files, files.len(), active, today, k);
}

} // verus!

verus! {

/// No two of the events are the same call.
pub open spec fn calls_distinct(s: Seq<CostUsageEvent>) -> bool {
    forall|i: int, j: int| 0 <= i < j < s.len() ==> !same_event(#[trigger] s[i], #[trigger] s[j])
}

/// The number of events the first `n` logs offer once replayed usage is left out.
pub open spec fn offered(files: Seq<IndexedFile>, n: nat) -> int
    decreases n,
{
    if n == 0 {
        0
    } else {
        offered(files, (n - 1) as nat) + counted_events(files, n - 1).len()
    }
}

pub open spec fn tally_holds(m: EstimateModel, offered_so_far: int) -> bool {
    &&& calls_distinct(m.seen)
    &&& m.token_events == m.seen.len() || m.token_events == usize::MAX
    &&& (m.token_events < usize::MAX && m.duplicates < usize::MAX ==> m.token_events + m.duplicates == offered_so_far)
}

proof fn lemma_step_tally(m: EstimateModel, e: CostUsageEvent, active: ActivePricing, today: Seq<char>, k: int)
    requires
        tally_holds(m, k),
    ensures
        tally_holds(estimate_step(m, e, active, today), k + 1),
{
    let n = estimate_step(m, e, active, today);
    if !(exists|q: int| 0 <= q < m.seen.len() && same_event(#[trigger] m.seen[q], e)) {
        assert forall|i: int, j: int| 0 <= i < j < n.seen.len() implies !same_event(#[trigger] n.seen[i], #[trigger] n.seen[j]) by {
            if j == m.seen.len() {
                assert(n.seen[j] == e);
                assert(n.seen[i] == m.seen[i]);
            } else {
                assert(n.seen[i] == m.seen[i] && n.seen[j] == m.seen[j]);
            }
        }
    }
}

proof fn lemma_events_tally(m: EstimateModel, events: Seq<CostUsageEvent>, n: nat, active: ActivePricing, today: Seq<char>, k: int)
    requires
        tally_holds(m, k),
        n <= events.len(),
    ensures
        tally_holds(estimate_events(m, events, n, active, today), k + n),
    decreases n,
{
    if n > 0 {
        lemma_events_tally(m, events, (n - 1) as nat, active, today, k);
        lemma_step_tally(estimate_events(m, events, (n - 1) as nat, active, today), events[n - 1], active, today, k + n - 1);
    }
}

proof fn lemma_files_tally(files: Seq<IndexedFile>, n: nat, active: ActivePricing, today: Seq<char>)
    ensures
        tally_holds(estimate_files(files, n, active, today), offered(files, n)),
    decreases n,
{
    if n > 0 {
        lemma_files_tally(files, (n - 1) as nat, active, today);
        let events = counted_events(files, n - 1);
        lemma_events_tally(estimate_files(files, (n - 1) as nat, active, today), events, events.len(), active, today, offered(files, (n - 1) as nat));
    }
}

/// Each call is counted once: no two counted events are the same call (same
/// instant, model and token counts), and every event the logs offer (replayed
/// usage left out) is either counted or skipped as a duplicate, so the counted
/// and skipped events add up to the events offered while neither count has
/// reached `usize::MAX`.
pub proof fn law_each_call_counted_once(files: Seq<IndexedFile>, active: ActivePricing, today: Seq<char>)
    ensures
        ({
            let m = estimate_files(files, files.len(), active, today);
            &&& calls_distinct(m.seen)
            &&& (m.token_events < usize::MAX ==> m.token_events == m.seen.len())
            &&& (m.token_events < usize::MAX && m.duplicates < usize::MAX ==> m.token_events + m.duplicates
                == offered(files, files.len()))
        }),
{
    lemma_files_tally(files, files.len(), active, today);
}

} // verus!
