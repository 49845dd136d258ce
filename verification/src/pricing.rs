//! Standard API pricing of Codex token events: the published rate table,
//! user-defined rate versions that take effect on a date, and the cost split
//! of one event into uncached input, cached input and output.
//!
//! Rates are whole micro-dollars per million tokens, so a cost is tokens times
//! rate in units of 10^-12 USD, computed without rounding.
use vstd::prelude::*;
use crate::text::{
    ascii_lower, chars_of, concat, is_ascii_digit, owned, str_ascii_lowercase, str_eq, str_trim,
    string_of_range, trim_spec,
};
use crate::dates::{date_in_format, parse_date, read_rfc3339, rfc3339_reading, utc_date_of_millis, utc_date_text};
use crate::json::opt_string_view;
use vstd::string::StringSliceAdditionalSpecFns;
use vstd::utf8::encode_utf8;

verus! {

broadcast use vstd::string::group_string_axioms;

/// The version written into the pricing file.
pub const PRICING_CONFIG_SCHEMA_VERSION: u32 = 2;

/// The date of the built-in rate table.
pub const DEFAULT_PRICING_UPDATED_AT: &'static str = "2026-07-26";

/// Where the built-in rates come from.
pub const DEFAULT_PRICING_BASIS: &'static str = "OpenAI Standard API 公开单价快照";

/// Above this many input tokens a request is billed at the long-context rates.
pub const LONG_CONTEXT_THRESHOLD: u64 = 272_000;

/// The highest rate a user may set: one million USD per million tokens.
pub const MAX_RATE: u64 = 1_000_000_000_000;

/// Rates for requests above a context threshold, in micro-USD per million tokens.
#[derive(Debug, Clone, Copy, PartialEq, Eq, Structural)]
pub struct LongContextRates {
    pub threshold: u64,
    pub input: u64,
    pub cached_input: u64,
    pub output: u64,
}

/// The rates of one model, in micro-USD per million tokens.
#[derive(Debug, Clone, Copy, PartialEq, Eq, Structural)]
pub struct ModelRates {
    pub input: u64,
    pub cached_input: u64,
    pub output: u64,
    pub long_context: Option<LongContextRates>,
}

/// The cost of one token event, in units of 10^-12 USD.
#[derive(Debug, Clone, Copy, PartialEq, Eq, Structural)]
pub struct CostBreakdown {
    pub uncached_input: u128,
    pub cached_input: u128,
    pub output: u128,
    pub total: u128,
    pub cache_savings: u128,
}

/// `t` is `-YYYY-MM-DD`: a dash and three dash-separated runs of ASCII digits.
pub open spec fn is_date_tail(t: Seq<char>) -> bool {
    &&& t.len() == 11
    &&& t[0] == '-' && t[5] == '-' && t[8] == '-'
    &&& is_ascii_digit(t[1]) && is_ascii_digit(t[2]) && is_ascii_digit(t[3]) && is_ascii_digit(t[4])
    &&& is_ascii_digit(t[6]) && is_ascii_digit(t[7])
    &&& is_ascii_digit(t[9]) && is_ascii_digit(t[10])
}

/// `s` without a trailing `-YYYY-MM-DD` release date.
pub open spec fn without_date_suffix(s: Seq<char>) -> Seq<char> {
    if s.len() >= 11 && is_date_tail(s.subrange(s.len() - 11, s.len() as int)) {
        s.subrange(0, s.len() - 11)
    } else {
        s
    }
}

/// The key under which a model is priced: trimmed, without a release date,
/// ASCII letters in lower case.
pub open spec fn model_key(s: Seq<char>) -> Seq<char> {
    ascii_lower(without_date_suffix(trim_spec(s)))
}

fn is_digit_char(c: char) -> (r: bool)
    ensures
        r == is_ascii_digit(c),
{
    '0' <= c && c <= '9'
}

/// Drops a trailing `-YYYY-MM-DD` release date from a model name.
pub fn strip_date_suffix(model: &str) -> (r: String)
    ensures
        r@ == without_date_suffix(model@),
{
    let chars = chars_of(model);
    let n = chars.len();
    if n >= 11 {
        let s = n - 11;
        let ghost tail = chars@.subrange(s as int, n as int);
        if chars[s] == '-' && is_digit_char(chars[s + 1]) && is_digit_char(chars[s + 2])
            && is_digit_char(chars[s + 3]) && is_digit_char(chars[s + 4]) && chars[s + 5] == '-'
            && is_digit_char(chars[s + 6]) && is_digit_char(chars[s + 7]) && chars[s + 8] == '-'
            && is_digit_char(chars[s + 9]) && is_digit_char(chars[s + 10]) {
            assert(is_date_tail(tail));
            return string_of_range(&chars, 0, s);
        }
        assert(!is_date_tail(tail));
    }
    owned(model)
}

/// The pricing key of a model name.
pub fn normalize_model(model: &str) -> (r: String)
    ensures
        r@ == model_key(model@),
{
    let stripped = strip_date_suffix(str_trim(model));
    str_ascii_lowercase(stripped.as_str())
}

pub open spec fn plain_rates(input: u64, cached_input: u64, output: u64) -> ModelRates {
    ModelRates { input, cached_input, output, long_context: None }
}

pub open spec fn tiered_rates(
    input: u64,
    cached_input: u64,
    output: u64,
    long_input: u64,
    long_cached_input: u64,
    long_output: u64,
) -> ModelRates {
    ModelRates {
        input,
        cached_input,
        output,
        long_context: Some(
            LongContextRates {
                threshold: LONG_CONTEXT_THRESHOLD,
                input: long_input,
                cached_input: long_cached_input,
                output: long_output,
            },
        ),
    }
}

/// The published Standard API rates, by pricing key.
pub open spec fn builtin_rates(key: Seq<char>) -> Option<ModelRates> {
    if key == "gpt-5"@ || key == "gpt-5.1"@ || key == "gpt-5.1-codex"@ {
        Some(plain_rates(1_250_000, 125_000, 10_000_000))
    } else if key == "gpt-5.2"@ || key == "gpt-5.2-codex"@ || key == "gpt-5.3-codex"@ {
        Some(plain_rates(1_750_000, 175_000, 14_000_000))
    } else if key == "gpt-5.4"@ || key == "gpt-5.6-terra"@ {
        Some(tiered_rates(2_500_000, 250_000, 15_000_000, 5_000_000, 500_000, 22_500_000))
    } else if key == "gpt-5.4-mini"@ {
        Some(plain_rates(750_000, 75_000, 4_500_000))
    } else if key == "gpt-5.4-nano"@ {
        Some(plain_rates(200_000, 20_000, 1_250_000))
    } else if key == "gpt-5.5"@ || key == "gpt-5.6-sol"@ {
        Some(tiered_rates(5_000_000, 500_000, 30_000_000, 10_000_000, 1_000_000, 45_000_000))
    } else if key == "gpt-5.6-luna"@ {
        Some(tiered_rates(1_000_000, 100_000, 6_000_000, 2_000_000, 200_000, 9_000_000))
    } else {
        None
    }
}

/// Every rate of `r` is at most `MAX_RATE`.
pub open spec fn rates_in_range(r: ModelRates) -> bool {
    &&& r.input <= MAX_RATE && r.cached_input <= MAX_RATE && r.output <= MAX_RATE
    &&& (r.long_context matches Some(l) ==> l.input <= MAX_RATE && l.cached_input <= MAX_RATE
        && l.output <= MAX_RATE)
}

/// The built-in rates of a model, looked up by its pricing key.
pub fn pricing_for_model(raw_model: &str) -> (r: Option<ModelRates>)
    ensures
        r == builtin_rates(model_key(raw_model@)),
        r matches Some(rates) ==> rates_in_range(rates),
{
    let key = normalize_model(raw_model);
    let k = key.as_str();
    if str_eq(k, "gpt-5") || str_eq(k, "gpt-5.1") || str_eq(k, "gpt-5.1-codex") {
        Some(ModelRates { input: 1_250_000, cached_input: 125_000, output: 10_000_000, long_context: None })
    } else if str_eq(k, "gpt-5.2") || str_eq(k, "gpt-5.2-codex") || str_eq(k, "gpt-5.3-codex") {
        Some(ModelRates { input: 1_750_000, cached_input: 175_000, output: 14_000_000, long_context: None })
    } else if str_eq(k, "gpt-5.4") || str_eq(k, "gpt-5.6-terra") {
        Some(ModelRates {
            input: 2_500_000,
            cached_input: 250_000,
            output: 15_000_000,
            long_context: Some(LongContextRates {
                threshold: LONG_CONTEXT_THRESHOLD,
                input: 5_000_000,
                cached_input: 500_000,
                output: 22_500_000,
            }),
        })
    } else if str_eq(k, "gpt-5.4-mini") {
        Some(ModelRates { input: 750_000, cached_input: 75_000, output: 4_500_000, long_context: None })
    } else if str_eq(k, "gpt-5.4-nano") {
        Some(ModelRates { input: 200_000, cached_input: 20_000, output: 1_250_000, long_context: None })
    } else if str_eq(k, "gpt-5.5") || str_eq(k, "gpt-5.6-sol") {
        Some(ModelRates {
            input: 5_000_000,
            cached_input: 500_000,
            output: 30_000_000,
            long_context: Some(LongContextRates {
                threshold: LONG_CONTEXT_THRESHOLD,
                input: 10_000_000,
                cached_input: 1_000_000,
                output: 45_000_000,
            }),
        })
    } else if str_eq(k, "gpt-5.6-luna") {
        Some(ModelRates {
            input: 1_000_000,
            cached_input: 100_000,
            output: 6_000_000,
            long_context: Some(LongContextRates {
                threshold: LONG_CONTEXT_THRESHOLD,
                input: 2_000_000,
                cached_input: 200_000,
                output: 9_000_000,
            }),
        })
    } else {
        None
    }
}

/// The (input, cached input, output) rates that apply to a request with
/// `input_tokens` input tokens: the long-context tier above its threshold.
pub open spec fn applied_rates(r: ModelRates, input_tokens: u64) -> (u64, u64, u64) {
    match r.long_context {
        Some(l) if input_tokens > l.threshold => (l.input, l.cached_input, l.output),
        _ => (r.input, r.cached_input, r.output),
    }
}

/// The cost of a token event. Cached tokens are capped at the input tokens;
/// reasoning tokens are already part of the output and are not charged again.
pub open spec fn cost_of(r: ModelRates, input_tokens: u64, cached_input_tokens: u64, output_tokens: u64) -> CostBreakdown {
    let cached: int = if cached_input_tokens <= input_tokens { cached_input_tokens as int } else { input_tokens as int };
    let uncached: int = input_tokens - cached;
    let (ir, cr, or) = applied_rates(r, input_tokens);
    let ui = uncached * ir;
    let ci = cached * cr;
    let o = output_tokens * or;
    let saved: int = if ir > cr { ir - cr } else { 0 };
    CostBreakdown {
        uncached_input: ui as u128,
        cached_input: ci as u128,
        output: o as u128,
        total: (ui + ci + o) as u128,
        cache_savings: (cached * saved) as u128,
    }
}

proof fn lemma_product_bound(a: int, b: int)
    requires
        0 <= a <= u64::MAX,
        0 <= b <= MAX_RATE,
    ensures
        0 <= a * b <= u64::MAX * MAX_RATE,
{
    assert(0 <= a * b <= u64::MAX * MAX_RATE) by (nonlinear_arith)
        requires
            0 <= a <= u64::MAX,
            0 <= b <= MAX_RATE,
    ;
}

/// Splits the cost of a token event at the given rates.
pub fn estimate_cost(rates: ModelRates, input_tokens: u64, cached_input_tokens: u64, output_tokens: u64) -> (r: CostBreakdown)
    requires
        rates_in_range(rates),
    ensures
        r == cost_of(rates, input_tokens, cached_input_tokens, output_tokens),
{
    let cached: u64 = if cached_input_tokens <= input_tokens { cached_input_tokens } else { input_tokens };
    let uncached: u64 = input_tokens - cached;
    let (ir, cr, or) = match rates.long_context {
        Some(l) if input_tokens > l.threshold => (l.input, l.cached_input, l.output),
        _ => (rates.input, rates.cached_input, rates.output),
    };
    let saved: u64 = if ir > cr { ir - cr } else { 0 };
    proof {
        lemma_product_bound(uncached as int, ir as int);
        lemma_product_bound(cached as int, cr as int);
        lemma_product_bound(output_tokens as int, or as int);
        lemma_product_bound(cached as int, saved as int);
    }
    let ui: u128 = (uncached as u128) * (ir as u128);
    let ci: u128 = (cached as u128) * (cr as u128);
    let o: u128 = (output_tokens as u128) * (or as u128);
    CostBreakdown {
        uncached_input: ui,
        cached_input: ci,
        output: o,
        total: ui + ci + o,
        cache_savings: (cached as u128) * (saved as u128),
    }
}


/// Code-point lexicographic order of two texts, the order of `str`'s `<`.
pub open spec fn text_lt(a: Seq<char>, b: Seq<char>) -> bool
    decreases a.len(),
{
    if b.len() == 0 {
        false
    } else if a.len() == 0 {
        true
    } else if a[0] != b[0] {
        a[0] < b[0]
    } else {
        text_lt(a.drop_first(), b.drop_first())
    }
}

/// `a` comes no later than `b`.
pub open spec fn text_le(a: Seq<char>, b: Seq<char>) -> bool {
    !text_lt(b, a)
}

/// The text order is asymmetric (and so irreflexive).
pub proof fn lemma_text_lt_asymmetric(a: Seq<char>, b: Seq<char>)
    ensures
        text_lt(a, b) ==> !text_lt(b, a),
    decreases a.len(),
{
    if a.len() > 0 && b.len() > 0 && a[0] == b[0] {
        lemma_text_lt_asymmetric(a.drop_first(), b.drop_first());
    }
}

/// The text order is transitive.
pub proof fn lemma_text_lt_transitive(a: Seq<char>, b: Seq<char>, c: Seq<char>)
    requires
        text_lt(a, b),
        text_lt(b, c),
    ensures
        text_lt(a, c),
    decreases a.len(),
{
    if a.len() > 0 && b.len() > 0 && c.len() > 0 && a[0] == b[0] && b[0] == c[0] {
        lemma_text_lt_transitive(a.drop_first(), b.drop_first(), c.drop_first());
    }
}

/// Two different texts are ordered one way or the other.
pub proof fn lemma_text_lt_total(a: Seq<char>, b: Seq<char>)
    ensures
        a == b || text_lt(a, b) || text_lt(b, a),
    decreases a.len(),
{
    if a.len() > 0 && b.len() > 0 && a[0] == b[0] {
        lemma_text_lt_total(a.drop_first(), b.drop_first());
        if a.drop_first() == b.drop_first() {
            assert(a =~= seq![a[0]] + a.drop_first());
            assert(b =~= seq![b[0]] + b.drop_first());
        }
    } else if a.len() == 0 && b.len() == 0 {
        assert(a =~= b);
    }
}

/// `a < b` in the order of `str`.
pub fn text_less(a: &str, b: &str) -> (r: bool)
    ensures
        r == text_lt(a@, b@),
{
    let ca = chars_of(a);
    let cb = chars_of(b);
    let mut i: usize = 0;
    assert(a@.skip(0) =~= a@ && b@.skip(0) =~= b@);
    while i < ca.len() && i < cb.len()
        invariant
            i <= ca@.len(),
            i <= cb@.len(),
            ca@ == a@,
            cb@ == b@,
            text_lt(a@, b@) == text_lt(a@.skip(i as int), b@.skip(i as int)),
        decreases ca@.len() - i,
    {
        if ca[i] != cb[i] {
            return ca[i] < cb[i];
        }
        assert(a@.skip(i as int).drop_first() =~= a@.skip(i + 1));
        assert(b@.skip(i as int).drop_first() =~= b@.skip(i + 1));
        i = i + 1;
    }
    ca.len() - i < cb.len() - i
}

/// A user-defined rate for one model. A rate is in micro-USD per million
/// tokens; `None` stands for an entry that is not a finite, non-negative number.
#[derive(Debug)]
pub struct PricingOverride {
    pub model: String,
    pub input_per_million: Option<u64>,
    pub cached_input_per_million: Option<u64>,
    pub output_per_million: Option<u64>,
}

impl View for PricingOverride {
    type V = (Seq<char>, Option<u64>, Option<u64>, Option<u64>);

    open spec fn view(&self) -> Self::V {
        (self.model@, self.input_per_million, self.cached_input_per_million, self.output_per_million)
    }
}

/// An override as validation keeps it: its model name trimmed.
pub open spec fn trimmed_view(o: PricingOverride) -> (Seq<char>, Option<u64>, Option<u64>, Option<u64>) {
    (trim_spec(o.model@), o.input_per_million, o.cached_input_per_million, o.output_per_million)
}

pub open spec fn views_of(s: Seq<PricingOverride>) -> Seq<(Seq<char>, Option<u64>, Option<u64>, Option<u64>)> {
    s.map_values(|o: PricingOverride| o@)
}

/// A rate is a number of micro-USD per million tokens no higher than `MAX_RATE`.
pub open spec fn rate_ok(r: Option<u64>) -> bool {
    r matches Some(v) && v <= MAX_RATE
}

pub open spec fn rate_error(model: Seq<char>, label: Seq<char>) -> Seq<char> {
    model + " 的"@ + label + "单价必须在 0 到 1,000,000 USD / 1M Token 之间"@
}

/// What is wrong with `o`, given the overrides accepted before it.
pub open spec fn override_error(o: PricingOverride, earlier: Seq<PricingOverride>) -> Option<Seq<char>> {
    let m = trim_spec(o.model@);
    if m.len() == 0 {
        Some("模型 ID 不能为空"@)
    } else if encode_utf8(m).len() > 200 {
        Some("模型 ID 过长："@ + m)
    } else if exists|j: int|
        0 <= j < earlier.len() && model_key(trim_spec(#[trigger] earlier[j].model@)) == model_key(m) {
        Some("模型单价重复："@ + m)
    } else if !rate_ok(o.input_per_million) {
        Some(rate_error(m, "输入"@))
    } else if !rate_ok(o.cached_input_per_million) {
        Some(rate_error(m, "缓存输入"@))
    } else if !rate_ok(o.output_per_million) {
        Some(rate_error(m, "输出"@))
    } else {
        None
    }
}

/// The first error among the first `n` overrides, in order.
pub open spec fn first_override_error(items: Seq<PricingOverride>, n: nat) -> Option<Seq<char>>
    decreases n,
{
    if n == 0 {
        None
    } else {
        match first_override_error(items, (n - 1) as nat) {
            Some(e) => Some(e),
            None => override_error(items[n - 1], items.take(n - 1)),
        }
    }
}

/// Once an error is found among the first `k` overrides, it is the first error
/// among any longer prefix too.
proof fn lemma_first_error_sticks(items: Seq<PricingOverride>, k: nat, n: nat)
    requires
        k <= n,
        first_override_error(items, k) is Some,
    ensures
        first_override_error(items, n) == first_override_error(items, k),
    decreases n,
{
    if n > k {
        lemma_first_error_sticks(items, k, (n - 1) as nat);
    }
}

/// Models in order, as `str` orders them.
pub open spec fn models_sorted(s: Seq<PricingOverride>) -> bool {
    forall|i: int, j: int| 0 <= i < j < s.len() ==> text_le(#[trigger] s[i].model@, #[trigger] s[j].model@)
}

/// All three rates of `o` are in range.
pub open spec fn override_rates_ok(o: PricingOverride) -> bool {
    rate_ok(o.input_per_million) && rate_ok(o.cached_input_per_million) && rate_ok(o.output_per_million)
}

pub open spec fn overrides_rates_ok(os: Seq<PricingOverride>) -> bool {
    forall|j: int| 0 <= j < os.len() ==> override_rates_ok(#[trigger] os[j])
}

/// `output` is what validation keeps of `input`: the same overrides with
/// trimmed model names, ordered by model.
pub open spec fn validated_overrides(input: Seq<PricingOverride>, output: Seq<PricingOverride>) -> bool {
    &&& output.len() == input.len()
    &&& models_sorted(output)
    &&& overrides_rates_ok(output)
    &&& views_of(output).to_multiset() == input.map_values(|o: PricingOverride| trimmed_view(o)).to_multiset()
}

/// Orders overrides by model name, moving them.
fn sort_by_model(items: Vec<PricingOverride>) -> (r: Vec<PricingOverride>)
    ensures
        models_sorted(r@),
        r@.len() == items@.len(),
        views_of(r@).to_multiset() == views_of(items@).to_multiset(),
        forall|i: int| 0 <= i < r@.len() ==> views_of(items@).contains(#[trigger] r@[i]@),
{
    broadcast use vstd::seq_lib::group_to_multiset_ensures;

    let mut rest = items;
    let mut out: Vec<PricingOverride> = Vec::new();
    while rest.len() > 0
        invariant
            models_sorted(out@),
            out@.len() + rest@.len() == items@.len(),
            views_of(out@).to_multiset().add(views_of(rest@).to_multiset())
                == views_of(items@).to_multiset(),
        decreases rest@.len(),
    {
        let ghost before = rest@;
        let ghost out_before = out@;
        let x = rest.pop().unwrap();
        assert(views_of(before) =~= views_of(rest@).push(x@));
        let mut p: usize = 0;
        loop
            invariant
                p <= out@.len(),
                forall|k: int| 0 <= k < p ==> !text_lt(x.model@, #[trigger] out@[k].model@),
            ensures
                p <= out@.len(),
                forall|k: int| 0 <= k < p ==> !text_lt(x.model@, #[trigger] out@[k].model@),
                p < out@.len() ==> text_lt(x.model@, out@[p as int].model@),
            decreases out@.len() - p,
        {
            if p >= out.len() {
                break;
            }
            if text_less(x.model.as_str(), out[p].model.as_str()) {
                break;
            }
            p = p + 1;
        }
        let ghost old_out = out@;
        let ghost xv = x@;
        out.insert(p, x);
        assert(views_of(out@) =~= views_of(old_out).insert(p as int, xv));
        proof {
            broadcast use vstd::multiset::group_multiset_axioms;
            vstd::seq_lib::to_multiset_build(views_of(rest@), xv);
            vstd::seq_lib::to_multiset_insert(views_of(old_out), p as int, xv);
            assert(views_of(out@).to_multiset().add(views_of(rest@).to_multiset()) =~= views_of(
                out_before,
            ).to_multiset().add(views_of(before).to_multiset()));
        }
        assert forall|i: int, j: int| 0 <= i < j < out@.len() implies text_le(
            #[trigger] out@[i].model@,
            #[trigger] out@[j].model@,
        ) by {
            if i < p && j == p {
            } else if i == p && j > p {
                let y = old_out[j - 1].model@;
                lemma_text_lt_asymmetric(xv.0, old_out[p as int].model@);
                if text_lt(y, xv.0) {
                    lemma_text_lt_transitive(y, xv.0, old_out[p as int].model@);
                    if j - 1 == p {
                        lemma_text_lt_asymmetric(y, y);
                    } else {
                        assert(text_le(old_out[p as int].model@, old_out[j - 1].model@));
                    }
                }
            } else if i < p && j > p {
                assert(text_le(old_out[i].model@, old_out[j - 1].model@));
            } else if i > p {
                assert(text_le(old_out[i - 1].model@, old_out[j - 1].model@));
            } else {
                assert(text_le(old_out[i].model@, old_out[j].model@));
            }
        }
    }
    assert(views_of(rest@) =~= Seq::empty());
    proof {
        broadcast use vstd::multiset::group_multiset_axioms;
        assert(views_of(out@).to_multiset() =~= views_of(items@).to_multiset());
        assert forall|i: int| 0 <= i < out@.len() implies views_of(items@).contains(#[trigger] out@[i]@) by {
            vstd::seq_lib::to_multiset_contains(views_of(out@), out@[i]@);
            vstd::seq_lib::to_multiset_contains(views_of(items@), out@[i]@);
            assert(views_of(out@)[i] == out@[i]@);
        }
    }
    out
}

fn rate_is_ok(r: Option<u64>) -> (b: bool)
    ensures
        b == rate_ok(r),
{
    match r {
        Some(v) => v <= MAX_RATE,
        None => false,
    }
}

/// Checks user-defined rates: each model named (at most 200 bytes once
/// trimmed), no two for the same pricing key, every rate within range.
/// Keeps them with trimmed names, ordered by model.
pub fn validate_overrides(overrides: Vec<PricingOverride>) -> (r: Result<Vec<PricingOverride>, String>)
    ensures
        match first_override_error(overrides@, overrides@.len()) {
            Some(e) => r matches Err(m) && m@ == e,
            None => r matches Ok(v) && validated_overrides(overrides@, v@),
        },
{
    let ghost input = overrides@;
    let count = overrides.len();
    let mut validated: Vec<PricingOverride> = Vec::new();
    let mut keys: Vec<String> = Vec::new();
    let mut rest = overrides;
    let mut i: usize = 0;
    // Overrides are taken from the front; `rest` keeps the ones still to check.
    while rest.len() > 0
        invariant
            i + rest@.len() == input.len(),
            input.len() == count,
            input == overrides@,
            rest@ == input.skip(i as int),
            validated@.len() == i,
            keys@.len() == i,
            first_override_error(input, i as nat) is None,
            forall|j: int| 0 <= j < i ==> (#[trigger] validated@[j])@ == trimmed_view(input[j]),
            overrides_rates_ok(validated@),
            forall|j: int| 0 <= j < i ==> (#[trigger] keys@[j])@ == model_key(trim_spec(input[j].model@)),
        decreases rest@.len(),
    {
        let item = rest.remove(0);
        assert(item == input[i as int]);
        assert(rest@ =~= input.skip(i + 1));
        assert(input.take(i as int) =~= input.take((i + 1) - 1));
        let model = str_trim(item.model.as_str());
        proof {
            if override_error(item, input.take(i as int)) is Some {
                assert(first_override_error(input, (i + 1) as nat) == override_error(item, input.take(i as int)));
                lemma_first_error_sticks(input, (i + 1) as nat, input.len());
            }
        }
        if model.is_empty() {
            return Err("模型 ID 不能为空".to_owned());
        }
        if model.as_bytes().len() > 200 {
            return Err(concat("模型 ID 过长：", model));
        }
        let key = normalize_model(model);
        proof {
            crate::provider::lemma_trim_idempotent(item.model@);
        }
        let mut j: usize = 0;
        while j < keys.len()
            invariant
                j <= keys@.len(),
                keys@.len() == i,
                i < input.len(),
                input == overrides@,
                item == input[i as int],
                model@ == trim_spec(item.model@),
                model@.len() > 0,
                encode_utf8(model@).len() <= 200,
                first_override_error(input, i as nat) is None,
                input.len() == count,
                key@ == model_key(trim_spec(input[i as int].model@)),
                forall|k: int| 0 <= k < i ==> (#[trigger] keys@[k])@ == model_key(trim_spec(input[k].model@)),
                forall|k: int| 0 <= k < j ==> model_key(trim_spec(#[trigger] input[k].model@)) != key@,
            decreases keys@.len() - j,
        {
            if str_eq(keys[j].as_str(), key.as_str()) {
                assert(input.take(i as int)[j as int] == input[j as int]);
                assert(model_key(trim_spec(input.take(i as int)[j as int].model@)) == model_key(
                    trim_spec(item.model@),
                ));
                assert(override_error(item, input.take(i as int)) == Some("模型单价重复："@ + model@));
                assert(first_override_error(input, (i + 1) as nat) == Some("模型单价重复："@ + model@));
                proof {
                    lemma_first_error_sticks(input, (i + 1) as nat, input.len());
                }
                return Err(concat("模型单价重复：", model));
            }
            j = j + 1;
        }
        assert(!(exists|k: int|
            0 <= k < input.take(i as int).len() && model_key(trim_spec(#[trigger] input.take(i as int)[k].model@))
                == model_key(trim_spec(item.model@)))) by {
            assert forall|k: int| 0 <= k < input.take(i as int).len() implies model_key(
                trim_spec(#[trigger] input.take(i as int)[k].model@),
            ) != model_key(trim_spec(item.model@)) by {
                assert(input.take(i as int)[k] == input[k]);
            }
        }
        if !rate_is_ok(item.input_per_million) {
            return Err(rate_message(model, "输入"));
        }
        if !rate_is_ok(item.cached_input_per_million) {
            return Err(rate_message(model, "缓存输入"));
        }
        if !rate_is_ok(item.output_per_million) {
            return Err(rate_message(model, "输出"));
        }
        validated.push(PricingOverride {
            model: model.to_owned(),
            input_per_million: item.input_per_million,
            cached_input_per_million: item.cached_input_per_million,
            output_per_million: item.output_per_million,
        });
        keys.push(key);
        i = i + 1;
    }
    assert(input.skip(i as int).len() == 0);
    let ghost trimmed = input.map_values(|o: PricingOverride| trimmed_view(o));
    assert(views_of(validated@) =~= trimmed);
    let ghost vs = validated@;
    let sorted = sort_by_model(validated);
    assert forall|j: int| 0 <= j < sorted@.len() implies override_rates_ok(#[trigger] sorted@[j]) by {
        let k = choose|k: int| 0 <= k < views_of(vs).len() && views_of(vs)[k] == sorted@[j]@;
        assert(override_rates_ok(vs[k]));
    }
    Ok(sorted)
}

fn rate_message(model: &str, label: &str) -> (r: String)
    ensures
        r@ == rate_error(model@, label@),
{
    let mut out = concat(model, " 的");
    out.append(label);
    out.append("单价必须在 0 到 1,000,000 USD / 1M Token 之间");
    out
}


/// A set of user-defined rates in force from `effective_from` on.
#[derive(Debug)]
pub struct PricingVersion {
    pub effective_from: String,
    pub created_at: String,
    pub overrides: Vec<PricingOverride>,
}

/// The pricing file as read: version 1 kept one list of overrides, version 2
/// keeps dated versions.
#[derive(Debug)]
pub struct PricingConfigFile {
    pub schema_version: u32,
    pub updated_at: Option<String>,
    pub overrides: Vec<PricingOverride>,
    pub versions: Vec<PricingVersion>,
}

/// The user-defined pricing in force.
#[derive(Debug)]
pub struct ActivePricing {
    pub updated_at: Option<String>,
    pub versions: Vec<PricingVersion>,
}

/// A request to store a new version of user-defined rates.
#[derive(Debug)]
pub struct PricingApplyRequest {
    pub overrides: Vec<PricingOverride>,
    pub effective_from: String,
}

/// The format of an effective date.
pub const DATE_FORMAT: &'static str = "%Y-%m-%d";

/// The date on which rates of a version-1 file take effect.
pub const LEGACY_EFFECTIVE_FROM: &'static str = "1970-01-01";

/// The canonical text of an effective date, if it is one.
pub open spec fn effective_date(text: Seq<char>) -> Option<Seq<char>> {
    date_in_format(trim_spec(text), DATE_FORMAT@)
}

pub open spec fn date_error() -> Seq<char> {
    "单价生效日期必须是 YYYY-MM-DD。"@
}

/// Checks an effective date and gives its canonical `YYYY-MM-DD` text.
pub fn validate_effective_date(value: &str) -> (r: Result<String, String>)
    ensures
        match effective_date(value@) {
            Some(d) => r matches Ok(s) && s@ == d,
            None => r matches Err(e) && e@ == date_error(),
        },
{
    match parse_date(str_trim(value), DATE_FORMAT) {
        Some(date) => Ok(date),
        None => Err("单价生效日期必须是 YYYY-MM-DD。".to_owned()),
    }
}

pub open spec fn date_of(v: PricingVersion) -> Seq<char> {
    match effective_date(v.effective_from@) {
        Some(d) => d,
        None => Seq::empty(),
    }
}

/// What is wrong with version `v`, given the versions accepted before it.
pub open spec fn version_error(v: PricingVersion, earlier: Seq<PricingVersion>) -> Option<Seq<char>> {
    match effective_date(v.effective_from@) {
        None => Some(date_error()),
        Some(d) => if exists|j: int| 0 <= j < earlier.len() && date_of(#[trigger] earlier[j]) == d {
            Some("单价生效日期重复："@ + d)
        } else if rfc3339_reading(v.created_at@, 0) is None {
            Some("单价版本时间无效："@ + v.created_at@)
        } else {
            first_override_error(v.overrides@, v.overrides@.len())
        },
    }
}

pub open spec fn first_version_error(items: Seq<PricingVersion>, n: nat) -> Option<Seq<char>>
    decreases n,
{
    if n == 0 {
        None
    } else {
        match first_version_error(items, (n - 1) as nat) {
            Some(e) => Some(e),
            None => version_error(items[n - 1], items.take(n - 1)),
        }
    }
}

proof fn lemma_first_version_error_sticks(items: Seq<PricingVersion>, k: nat, n: nat)
    requires
        k <= n,
        first_version_error(items, k) is Some,
    ensures
        first_version_error(items, n) == first_version_error(items, k),
    decreases n,
{
    if n > k {
        lemma_first_version_error_sticks(items, k, (n - 1) as nat);
    }
}

/// `output` is what validation keeps of version `input`.
pub open spec fn validated_version(input: PricingVersion, output: PricingVersion) -> bool {
    &&& effective_date(input.effective_from@) == Some(output.effective_from@)
    &&& output.created_at@ == input.created_at@
    &&& validated_overrides(input.overrides@, output.overrides@)
}

/// Checks each version: a valid, not repeated effective date, an RFC 3339
/// creation time and valid overrides.
pub fn validate_versions(versions: Vec<PricingVersion>) -> (r: Result<Vec<PricingVersion>, String>)
    ensures
        match first_version_error(versions@, versions@.len()) {
            Some(e) => r matches Err(m) && m@ == e,
            None => r matches Ok(v) && v@.len() == versions@.len() && forall|i: int|
                0 <= i < v@.len() ==> validated_version(versions@[i], #[trigger] v@[i]),
        },
{
    let ghost input = versions@;
    let count = versions.len();
    let mut validated: Vec<PricingVersion> = Vec::new();
    let mut rest = versions;
    let mut i: usize = 0;
    while rest.len() > 0
        invariant
            i + rest@.len() == input.len(),
            input.len() == count,
            input == versions@,
            rest@ == input.skip(i as int),
            validated@.len() == i,
            first_version_error(input, i as nat) is None,
            forall|j: int| 0 <= j < i ==> validated_version(input[j], #[trigger] validated@[j]),
        decreases rest@.len(),
    {
        let version = rest.remove(0);
        assert(version == input[i as int]);
        assert(rest@ =~= input.skip(i + 1));
        let ghost earlier = input.take(i as int);
        assert(input.take((i + 1) - 1) =~= earlier);
        proof {
            if version_error(version, earlier) is Some {
                assert(first_version_error(input, (i + 1) as nat) == version_error(version, earlier));
                lemma_first_version_error_sticks(input, (i + 1) as nat, input.len());
            }
        }
        let effective_from = match validate_effective_date(version.effective_from.as_str()) {
            Ok(d) => d,
            Err(e) => {
                return Err(e);
            },
        };
        let mut j: usize = 0;
        while j < validated.len()
            invariant
                j <= validated@.len(),
                validated@.len() == i,
                i < input.len(),
                input.len() == count,
                input == versions@,
                earlier == input.take(i as int),
                version == input[i as int],
                first_version_error(input, i as nat) is None,
                effective_date(version.effective_from@) == Some(effective_from@),
                forall|k: int| 0 <= k < i ==> validated_version(input[k], #[trigger] validated@[k]),
                forall|k: int| 0 <= k < j ==> date_of(#[trigger] input[k]) != effective_from@,
            decreases validated@.len() - j,
        {
            if str_eq(validated[j].effective_from.as_str(), effective_from.as_str()) {
                assert(earlier[j as int] == input[j as int]);
                assert(date_of(earlier[j as int]) == effective_from@);
                assert(version_error(version, earlier) == Some("单价生效日期重复："@ + effective_from@));
                proof {
                    assert(first_version_error(input, (i + 1) as nat) == version_error(version, earlier));
                    lemma_first_version_error_sticks(input, (i + 1) as nat, input.len());
                }
                let mut message = "单价生效日期重复：".to_owned();
                message.append(effective_from.as_str());
                return Err(message);
            }
            j = j + 1;
        }
        assert(!(exists|k: int| 0 <= k < earlier.len() && date_of(#[trigger] earlier[k]) == effective_from@))
            by {
            assert forall|k: int| 0 <= k < earlier.len() implies date_of(#[trigger] earlier[k])
                != effective_from@ by {
                assert(earlier[k] == input[k]);
            }
        }
        if read_rfc3339(version.created_at.as_str(), 0).is_none() {
            let mut message = "单价版本时间无效：".to_owned();
            message.append(version.created_at.as_str());
            return Err(message);
        }
        let PricingVersion { effective_from: _, created_at, overrides } = version;
        let overrides = match validate_overrides(overrides) {
            Ok(o) => o,
            Err(e) => {
                return Err(e);
            },
        };
        validated.push(PricingVersion { effective_from, created_at, overrides });
        i = i + 1;
    }
    assert(input.skip(i as int).len() == 0);
    Ok(validated)
}

/// `a` comes no later than `b`: by effective date, then by creation time.
pub open spec fn version_le(a: PricingVersion, b: PricingVersion) -> bool {
    ||| text_lt(a.effective_from@, b.effective_from@)
    ||| (a.effective_from@ == b.effective_from@ && text_le(a.created_at@, b.created_at@))
}

pub open spec fn versions_sorted(s: Seq<PricingVersion>) -> bool {
    forall|i: int, j: int| 0 <= i < j < s.len() ==> version_le(#[trigger] s[i], #[trigger] s[j])
}

proof fn lemma_version_order(a: PricingVersion, b: PricingVersion, c: PricingVersion)
    ensures
        !version_le(a, b) ==> version_le(b, a),
        version_le(a, b) && version_le(b, c) ==> version_le(a, c),
{
    lemma_text_lt_total(a.effective_from@, b.effective_from@);
    lemma_text_lt_total(a.created_at@, b.created_at@);
    lemma_text_lt_asymmetric(a.effective_from@, b.effective_from@);
    lemma_text_lt_asymmetric(a.created_at@, b.created_at@);
    if version_le(a, b) && version_le(b, c) {
        if text_lt(a.effective_from@, b.effective_from@) && text_lt(b.effective_from@, c.effective_from@) {
            lemma_text_lt_transitive(a.effective_from@, b.effective_from@, c.effective_from@);
        }
        if a.effective_from@ == b.effective_from@ && b.effective_from@ == c.effective_from@ {
            if text_lt(c.created_at@, a.created_at@) {
                lemma_text_lt_total(b.created_at@, c.created_at@);
                lemma_text_lt_total(a.created_at@, b.created_at@);
                if text_lt(c.created_at@, b.created_at@) {
                } else if c.created_at@ == b.created_at@ {
                } else {
                    lemma_text_lt_transitive(b.created_at@, c.created_at@, a.created_at@);
                    lemma_text_lt_asymmetric(a.created_at@, b.created_at@);
                    if a.created_at@ == b.created_at@ {
                        lemma_text_lt_asymmetric(a.created_at@, a.created_at@);
                    }
                }
            }
        }
    }
}

fn version_before(a: &PricingVersion, b: &PricingVersion) -> (r: bool)
    ensures
        r == !version_le(*b, *a),
{
    proof {
        lemma_text_lt_asymmetric(a.effective_from@, b.effective_from@);
        lemma_text_lt_asymmetric(a.effective_from@, a.effective_from@);
        lemma_text_lt_total(a.effective_from@, b.effective_from@);
    }
    if text_less(a.effective_from.as_str(), b.effective_from.as_str()) {
        true
    } else if str_eq(a.effective_from.as_str(), b.effective_from.as_str()) {
        text_less(a.created_at.as_str(), b.created_at.as_str())
    } else {
        false
    }
}

/// Orders versions by effective date, then creation time, moving them.
fn sort_versions(items: Vec<PricingVersion>) -> (r: Vec<PricingVersion>)
    ensures
        versions_sorted(r@),
        r@.len() == items@.len(),
        r@.to_multiset() == items@.to_multiset(),
{
    let mut rest = items;
    let mut out: Vec<PricingVersion> = Vec::new();
    proof {
        broadcast use vstd::multiset::group_multiset_axioms;
        vstd::seq_lib::to_multiset_len(out@);
        vstd::multiset::lemma_multiset_empty_len(out@.to_multiset());
        assert(out@.to_multiset().add(rest@.to_multiset()) =~= items@.to_multiset());
    }
    while rest.len() > 0
        invariant
            versions_sorted(out@),
            out@.to_multiset().add(rest@.to_multiset()) == items@.to_multiset(),
        decreases rest@.len(),
    {
        let ghost before = rest@;
        let ghost out_before = out@;
        let x = rest.pop().unwrap();
        assert(before =~= rest@.push(x));
        let mut p: usize = 0;
        loop
            invariant
                p <= out@.len(),
                forall|k: int| 0 <= k < p ==> version_le(#[trigger] out@[k], x),
            ensures
                p <= out@.len(),
                forall|k: int| 0 <= k < p ==> version_le(#[trigger] out@[k], x),
                p < out@.len() ==> !version_le(out@[p as int], x),
            decreases out@.len() - p,
        {
            if p >= out.len() {
                break;
            }
            if version_before(&x, &out[p]) {
                break;
            }
            p = p + 1;
        }
        let ghost old_out = out@;
        let ghost xv = x;
        out.insert(p, x);
        proof {
            broadcast use vstd::multiset::group_multiset_axioms;
            vstd::seq_lib::to_multiset_build(rest@, xv);
            vstd::seq_lib::to_multiset_insert(old_out, p as int, xv);
            assert(out@.to_multiset().add(rest@.to_multiset()) =~= out_before.to_multiset().add(
                before.to_multiset(),
            ));
        }
        assert forall|i: int, j: int| 0 <= i < j < out@.len() implies version_le(
            #[trigger] out@[i],
            #[trigger] out@[j],
        ) by {
            if i < p && j == p {
            } else if i == p && j > p {
                let y = old_out[j - 1];
                lemma_version_order(old_out[p as int], xv, xv);
                if j - 1 > p {
                    assert(version_le(old_out[p as int], y));
                    lemma_version_order(xv, old_out[p as int], y);
                }
            } else if i < p && j > p {
                assert(version_le(old_out[i], old_out[j - 1]));
            } else if i > p {
                assert(version_le(old_out[i - 1], old_out[j - 1]));
            } else {
                assert(version_le(old_out[i], old_out[j]));
            }
        }
    }
    proof {
        broadcast use vstd::multiset::group_multiset_axioms;
        vstd::seq_lib::to_multiset_len(rest@);
        vstd::multiset::lemma_multiset_empty_len(rest@.to_multiset());
        assert(out@.to_multiset().add(rest@.to_multiset()) =~= out@.to_multiset());
        vstd::seq_lib::to_multiset_len(out@);
        vstd::seq_lib::to_multiset_len(items@);
    }
    out
}


/// The legacy version made of a version-1 file's overrides: none if there
/// are none, else one version in force since `LEGACY_EFFECTIVE_FROM`.
pub open spec fn legacy_versions(overrides: Seq<PricingOverride>, created_at: Seq<char>, out: Seq<PricingVersion>) -> bool {
    if overrides.len() == 0 {
        out.len() == 0
    } else {
        &&& out.len() == 1
        &&& out[0].effective_from@ == LEGACY_EFFECTIVE_FROM@
        &&& out[0].created_at@ == created_at
        &&& validated_overrides(overrides, out[0].overrides@)
    }
}

/// `out` holds the validated form of each of `input`'s versions, ordered.
pub open spec fn settled_versions(input: Seq<PricingVersion>, out: Seq<PricingVersion>) -> bool {
    exists|w: Seq<PricingVersion>|
        {
            &&& w.len() == input.len()
            &&& forall|i: int| 0 <= i < w.len() ==> validated_version(input[i], #[trigger] w[i])
            &&& versions_sorted(out)
            &&& out.to_multiset() == w.to_multiset()
        }
}

pub open spec fn opt_view(v: Option<String>) -> Option<Seq<char>> {
    opt_string_view(v)
}

/// What reading a parsed pricing file gives: its time of last change and its
/// versions, or the first error. `now` stands in for a missing change time of
/// a version-1 file.
pub open spec fn config_read(
    file: PricingConfigFile,
    now: Seq<char>,
    r: Result<(Option<Seq<char>>, Seq<PricingVersion>), Seq<char>>,
) -> bool {
    if file.schema_version != 1 && file.schema_version != PRICING_CONFIG_SCHEMA_VERSION {
        r == Err::<(Option<Seq<char>>, Seq<PricingVersion>), Seq<char>>(
            "不支持的单价设置版本："@ + crate::text::decimal(file.schema_version as nat),
        )
    } else if file.schema_version == 1 {
        match first_override_error(file.overrides@, file.overrides@.len()) {
            Some(e) => r == Err::<(Option<Seq<char>>, Seq<PricingVersion>), Seq<char>>(e),
            None => r matches Ok((u, vs)) && u == opt_view(file.updated_at) && legacy_versions(
                file.overrides@,
                match file.updated_at {
                    Some(t) => t@,
                    None => now,
                },
                vs,
            ),
        }
    } else {
        match first_version_error(file.versions@, file.versions@.len()) {
            Some(e) => r == Err::<(Option<Seq<char>>, Seq<PricingVersion>), Seq<char>>(e),
            None => r matches Ok((u, vs)) && u == opt_view(file.updated_at) && settled_versions(
                file.versions@,
                vs,
            ),
        }
    }
}

pub open spec fn read_view(r: Result<(Option<String>, Vec<PricingVersion>), String>) -> Result<
    (Option<Seq<char>>, Seq<PricingVersion>),
    Seq<char>,
> {
    match r {
        Ok((u, vs)) => Ok((opt_view(u), vs@)),
        Err(e) => Err(e@),
    }
}

/// Reads a parsed pricing file: checks its version, turns a version-1 list of
/// overrides into one version, validates and orders the versions.
pub fn read_pricing_config(file: PricingConfigFile, now: &str) -> (r: Result<(Option<String>, Vec<PricingVersion>), String>)
    ensures
        config_read(file, now@, read_view(r)),
{
    let ghost input = file;
    let PricingConfigFile { schema_version, updated_at, overrides, versions } = file;
    if schema_version != 1 && schema_version != PRICING_CONFIG_SCHEMA_VERSION {
        let mut message = "不支持的单价设置版本：".to_owned();
        let digits = crate::text::decimal_string(schema_version as u128);
        message.append(digits.as_str());
        return Err(message);
    }
    let validated = if schema_version == 1 {
        let overrides = match validate_overrides(overrides) {
            Ok(o) => o,
            Err(e) => {
                return Err(e);
            },
        };
        let mut legacy: Vec<PricingVersion> = Vec::new();
        if overrides.len() > 0 {
            let created_at = match &updated_at {
                Some(t) => t.clone(),
                None => now.to_owned(),
            };
            legacy.push(PricingVersion {
                effective_from: LEGACY_EFFECTIVE_FROM.to_owned(),
                created_at,
                overrides,
            });
        }
        legacy
    } else {
        match validate_versions(versions) {
            Ok(v) => v,
            Err(e) => {
                return Err(e);
            },
        }
    };
    let ghost w = validated@;
    let sorted = sort_versions(validated);
    proof {
        if input.schema_version == 1 {
            if w.len() == 1 {
                vstd::seq_lib::to_multiset_contains(w, w[0]);
                vstd::seq_lib::to_multiset_contains(sorted@, w[0]);
                assert(w.contains(w[0]));
                assert(sorted@.contains(w[0]));
                assert(sorted@[0] == w[0]);
            }
        } else {
            assert(settled_versions(input.versions@, sorted@)) by {
                assert(w.len() == input.versions@.len());
            }
        }
    }
    Ok((updated_at, sorted))
}


/// Version `v` is in force on `date`.
pub open spec fn in_force(v: PricingVersion, date: Seq<char>) -> bool {
    text_le(v.effective_from@, date)
}

/// The last of the first `n` versions that is in force on `date`.
pub open spec fn last_in_force(vs: Seq<PricingVersion>, date: Seq<char>, n: nat) -> Option<int>
    decreases n,
{
    if n == 0 {
        None
    } else if in_force(vs[n - 1], date) {
        Some(n - 1)
    } else {
        last_in_force(vs, date, (n - 1) as nat)
    }
}

/// The first of the first `n` overrides priced under `key`.
pub open spec fn first_for_key(os: Seq<PricingOverride>, key: Seq<char>, n: nat) -> Option<int>
    decreases n,
{
    if n == 0 {
        None
    } else {
        match first_for_key(os, key, (n - 1) as nat) {
            Some(j) => Some(j),
            None => if model_key(os[n - 1].model@) == key {
                Some(n - 1)
            } else {
                None
            },
        }
    }
}

proof fn lemma_last_in_force_range(vs: Seq<PricingVersion>, date: Seq<char>, n: nat)
    ensures
        last_in_force(vs, date, n) matches Some(i) ==> 0 <= i < n,
    decreases n,
{
    if n > 0 {
        lemma_last_in_force_range(vs, date, (n - 1) as nat);
    }
}

proof fn lemma_first_for_key_range(os: Seq<PricingOverride>, key: Seq<char>, n: nat)
    ensures
        first_for_key(os, key, n) matches Some(j) ==> 0 <= j < n,
    decreases n,
{
    if n > 0 {
        lemma_first_for_key_range(os, key, (n - 1) as nat);
    }
}

/// The version in force on `date` and, in it, the override for `raw_model`.
pub open spec fn override_choice(vs: Seq<PricingVersion>, raw_model: Seq<char>, date: Seq<char>) -> Option<(int, int)> {
    match last_in_force(vs, date, vs.len()) {
        None => None,
        Some(i) => match first_for_key(vs[i].overrides@, model_key(raw_model), vs[i].overrides@.len()) {
            None => None,
            Some(j) => Some((i, j)),
        },
    }
}

/// The last version in force on `date`.
pub fn version_in_force(versions: &Vec<PricingVersion>, date: &str) -> (r: Option<usize>)
    ensures
        match r {
            Some(i) => i < versions@.len() && last_in_force(versions@, date@, versions@.len()) == Some(i as int),
            None => last_in_force(versions@, date@, versions@.len()) is None,
        },
{
    proof {
        lemma_last_in_force_range(versions@, date@, versions@.len());
    }
    let mut i = versions.len();
    while i > 0
        invariant
            i <= versions@.len(),
            last_in_force(versions@, date@, versions@.len()) == last_in_force(versions@, date@, i as nat),
        decreases i,
    {
        if !text_less(date, versions[i - 1].effective_from.as_str()) {
            return Some(i - 1);
        }
        i = i - 1;
    }
    None
}

/// The first override priced under the same key as `raw_model`.
pub fn override_for_model(overrides: &Vec<PricingOverride>, raw_model: &str) -> (r: Option<usize>)
    ensures
        match r {
            Some(j) => j < overrides@.len() && first_for_key(overrides@, model_key(raw_model@), overrides@.len()) == Some(j as int),
            None => first_for_key(overrides@, model_key(raw_model@), overrides@.len()) is None,
        },
{
    proof {
        lemma_first_for_key_range(overrides@, model_key(raw_model@), overrides@.len());
    }
    let key = normalize_model(raw_model);
    let mut j: usize = 0;
    while j < overrides.len()
        invariant
            j <= overrides@.len(),
            key@ == model_key(raw_model@),
            first_for_key(overrides@, key@, j as nat) is None,
        decreases overrides@.len() - j,
    {
        let candidate = normalize_model(overrides[j].model.as_str());
        if str_eq(candidate.as_str(), key.as_str()) {
            proof {
                lemma_first_for_key_sticks(overrides@, key@, (j + 1) as nat, overrides@.len());
            }
            return Some(j);
        }
        j = j + 1;
    }
    None
}

proof fn lemma_first_for_key_sticks(os: Seq<PricingOverride>, key: Seq<char>, k: nat, n: nat)
    requires
        k <= n,
        first_for_key(os, key, k) is Some,
    ensures
        first_for_key(os, key, n) == first_for_key(os, key, k),
    decreases n,
{
    if n > k {
        lemma_first_for_key_sticks(os, key, k, (n - 1) as nat);
    }
}

/// The user-defined rate for `raw_model` in the version in force on `event_date`.
pub fn pricing_override_for_versions<'a>(
    versions: &'a Vec<PricingVersion>,
    raw_model: &str,
    event_date: &str,
) -> (r: Option<&'a PricingOverride>)
    ensures
        match override_choice(versions@, raw_model@, event_date@) {
            Some((i, j)) => r == Some(&versions@[i].overrides@[j]),
            None => r is None,
        },
{
    match version_in_force(versions, event_date) {
        None => None,
        Some(i) => match override_for_model(&versions[i].overrides, raw_model) {
            None => None,
            Some(j) => Some(&versions[i].overrides[j]),
        },
    }
}

/// Every rate of every version is in range.
pub open spec fn pricing_rates_ok(vs: Seq<PricingVersion>) -> bool {
    forall|i: int| 0 <= i < vs.len() ==> overrides_rates_ok(#[trigger] vs[i].overrides@)
}

/// Whatever reading a pricing file accepts has every rate in range.
proof fn lemma_read_rates_ok(
    f: PricingConfigFile,
    now: Seq<char>,
    r: Result<(Option<Seq<char>>, Seq<PricingVersion>), Seq<char>>,
)
    requires
        config_read(f, now, r),
        r is Ok,
    ensures
        pricing_rates_ok(r->Ok_0.1),
{
    let out = r->Ok_0.1;
    if f.schema_version == 2 {
        let w = choose|w: Seq<PricingVersion>|
            {
                &&& w.len() == f.versions@.len()
                &&& forall|i: int| 0 <= i < w.len() ==> validated_version(f.versions@[i], #[trigger] w[i])
                &&& versions_sorted(out)
                &&& out.to_multiset() == w.to_multiset()
            };
        assert forall|i: int| 0 <= i < out.len() implies overrides_rates_ok(#[trigger] out[i].overrides@) by {
            vstd::seq_lib::to_multiset_contains(out, out[i]);
            vstd::seq_lib::to_multiset_contains(w, out[i]);
            assert(out.contains(out[i]));
            let k = choose|k: int| 0 <= k < w.len() && w[k] == out[i];
            assert(validated_version(f.versions@[k], w[k]));
        }
    }
}

pub open spec fn rate_value(r: Option<u64>) -> u64 {
    match r {
        Some(v) => v,
        None => 0,
    }
}

/// The rates a user-defined override stands for; these have no long-context tier.
pub open spec fn override_rates(o: PricingOverride) -> ModelRates {
    plain_rates(rate_value(o.input_per_million), rate_value(o.cached_input_per_million), rate_value(o.output_per_million))
}

/// The rates that price `model` on `date`: the user's in force, else the published ones.
pub open spec fn rates_on(vs: Seq<PricingVersion>, model: Seq<char>, date: Seq<char>) -> Option<ModelRates> {
    match override_choice(vs, model, date) {
        Some((i, j)) => Some(override_rates(vs[i].overrides@[j])),
        None => builtin_rates(model_key(model)),
    }
}

pub open spec fn estimate_spec(
    vs: Seq<PricingVersion>,
    model: Seq<char>,
    input_tokens: u64,
    cached_input_tokens: u64,
    output_tokens: u64,
    date: Seq<char>,
) -> Option<CostBreakdown> {
    match rates_on(vs, model, date) {
        Some(r) => Some(cost_of(r, input_tokens, cached_input_tokens, output_tokens)),
        None => None,
    }
}

/// The Standard API cost of a token event on `event_date`; `None` for a model
/// with neither a user-defined nor a published rate.
pub fn estimate_standard_api_cost_on(
    active: &ActivePricing,
    model: &str,
    input_tokens: u64,
    cached_input_tokens: u64,
    output_tokens: u64,
    event_date: &str,
) -> (r: Option<CostBreakdown>)
    requires
        pricing_rates_ok(active.versions@),
    ensures
        r == estimate_spec(active.versions@, model@, input_tokens, cached_input_tokens, output_tokens, event_date@),
{
    let rates = match pricing_override_for_versions(&active.versions, model, event_date) {
        Some(o) => {
            let rates = ModelRates {
                input: unwrap_rate(o.input_per_million),
                cached_input: unwrap_rate(o.cached_input_per_million),
                output: unwrap_rate(o.output_per_million),
                long_context: None,
            };
            rates
        },
        None => match pricing_for_model(model) {
            Some(rates) => rates,
            None => {
                return None;
            },
        },
    };
    proof {
        match override_choice(active.versions@, model@, event_date@) {
            Some((i, j)) => {
                lemma_last_in_force_range(active.versions@, event_date@, active.versions@.len());
                lemma_first_for_key_range(active.versions@[i].overrides@, model_key(model@), active.versions@[i].overrides@.len());
                let o = active.versions@[i].overrides@[j];
                assert(overrides_rates_ok(active.versions@[i].overrides@));
                assert(override_rates_ok(o));
            },
            None => {},
        }
    }
    Some(estimate_cost(rates, input_tokens, cached_input_tokens, output_tokens))
}

fn unwrap_rate(r: Option<u64>) -> (v: u64)
    ensures
        v == rate_value(r),
{
    match r {
        Some(v) => v,
        None => 0,
    }
}

/// The day an event is priced on: the UTC date of its timestamp, or `today`
/// when chrono cannot represent the timestamp.
pub open spec fn event_day(timestamp_ms: i64, today: Seq<char>) -> Seq<char> {
    match utc_date_text(timestamp_ms as int) {
        Some(d) => d,
        None => today,
    }
}

/// The Standard API cost of a token event at a Unix timestamp in milliseconds.
pub fn estimate_standard_api_cost_at(
    active: &ActivePricing,
    model: &str,
    input_tokens: u64,
    cached_input_tokens: u64,
    output_tokens: u64,
    timestamp_ms: i64,
    today: &str,
) -> (r: Option<CostBreakdown>)
    requires
        pricing_rates_ok(active.versions@),
    ensures
        r == estimate_spec(
            active.versions@,
            model@,
            input_tokens,
            cached_input_tokens,
            output_tokens,
            event_day(timestamp_ms, today@),
        ),
{
    let day = match utc_date_of_millis(timestamp_ms) {
        Some(d) => d,
        None => today.to_owned(),
    };
    estimate_standard_api_cost_on(active, model, input_tokens, cached_input_tokens, output_tokens, day.as_str())
}

/// User-defined rates are in force on `today`.
pub open spec fn customized(vs: Seq<PricingVersion>, today: Seq<char>) -> bool {
    match last_in_force(vs, today, vs.len()) {
        Some(i) => vs[i].overrides@.len() > 0,
        None => false,
    }
}

pub open spec fn metadata_spec(vs: Seq<PricingVersion>, updated_at: Option<Seq<char>>, today: Seq<char>) -> (Seq<char>, Seq<char>) {
    if customized(vs, today) {
        (
            DEFAULT_PRICING_BASIS@ + " + 用户自定义版本化单价"@,
            match updated_at {
                Some(u) => u,
                None => DEFAULT_PRICING_UPDATED_AT@,
            },
        )
    } else {
        (DEFAULT_PRICING_BASIS@, DEFAULT_PRICING_UPDATED_AT@)
    }
}

/// Where the rates in force on `today` come from, and when they last changed.
pub fn pricing_metadata(active: &ActivePricing, today: &str) -> (r: (String, String))
    ensures
        (r.0@, r.1@) == metadata_spec(active.versions@, opt_view(active.updated_at), today@),
{
    let custom = match version_in_force(&active.versions, today) {
        Some(i) => active.versions[i].overrides.len() > 0,
        None => false,
    };
    if custom {
        let basis = concat(DEFAULT_PRICING_BASIS, " + 用户自定义版本化单价");
        assert(basis@ == DEFAULT_PRICING_BASIS@ + " + 用户自定义版本化单价"@);
        let updated_at = match &active.updated_at {
            Some(u) => u.clone(),
            None => DEFAULT_PRICING_UPDATED_AT.to_owned(),
        };
        (basis, updated_at)
    } else {
        let basis = DEFAULT_PRICING_BASIS.to_owned();
        let updated_at = DEFAULT_PRICING_UPDATED_AT.to_owned();
        assert(basis@ == DEFAULT_PRICING_BASIS@);
        assert(updated_at@ == DEFAULT_PRICING_UPDATED_AT@);
        (basis, updated_at)
    }
}

/// The pricing a file puts in force: nothing user-defined when there is no
/// file, else what reading it gives.
pub fn activate_pricing_config(file: Option<PricingConfigFile>, now: &str) -> (r: Result<ActivePricing, String>)
    ensures
        match file {
            None => r matches Ok(a) && a.updated_at is None && a.versions@.len() == 0,
            Some(f) => config_read(
                f,
                now@,
                match r {
                    Ok(a) => Ok((opt_view(a.updated_at), a.versions@)),
                    Err(e) => Err(e@),
                },
            ),
        },
        r matches Ok(a) ==> pricing_rates_ok(a.versions@),
{
    match file {
        None => Ok(ActivePricing { updated_at: None, versions: Vec::new() }),
        Some(f) => match read_pricing_config(f, now) {
            Ok((updated_at, versions)) => {
                proof {
                    lemma_read_rates_ok(f, now@, Ok((opt_view(updated_at), versions@)));
                }
                Ok(ActivePricing { updated_at, versions })
            },
            Err(e) => Err(e),
        },
    }
}


/// Checks a request to store rates: its overrides, then its effective date.
pub fn validate_pricing_request(request: PricingApplyRequest) -> (r: Result<(Vec<PricingOverride>, String), String>)
    ensures
        match first_override_error(request.overrides@, request.overrides@.len()) {
            Some(e) => r matches Err(m) && m@ == e,
            None => match effective_date(request.effective_from@) {
                None => r matches Err(m) && m@ == date_error(),
                Some(d) => r matches Ok((o, s)) && validated_overrides(request.overrides@, o@) && s@ == d,
            },
        },
{
    let PricingApplyRequest { overrides, effective_from } = request;
    let overrides = match validate_overrides(overrides) {
        Ok(o) => o,
        Err(e) => {
            return Err(e);
        },
    };
    match validate_effective_date(effective_from.as_str()) {
        Ok(d) => Ok((overrides, d)),
        Err(e) => Err(e),
    }
}

pub open spec fn other_date(date: Seq<char>) -> spec_fn(PricingVersion) -> bool {
    |v: PricingVersion| v.effective_from@ != date
}

/// The versions after storing `version`: the one with the same effective date
/// replaced, the rest kept, all ordered by effective date and creation time.
pub fn merge_pricing_version(previous: Vec<PricingVersion>, version: PricingVersion) -> (r: Vec<PricingVersion>)
    ensures
        versions_sorted(r@),
        r@.to_multiset() == previous@.filter(other_date(version.effective_from@)).push(version).to_multiset(),
{
    let ghost input = previous@;
    let count = previous.len();
    let ghost keep = other_date(version.effective_from@);
    let mut kept: Vec<PricingVersion> = Vec::new();
    let mut rest = previous;
    let mut i: usize = 0;
    assert(input.take(0) =~= Seq::<PricingVersion>::empty());
    proof {
        reveal(Seq::filter);
    }
    while rest.len() > 0
        invariant
            rest@ == input.skip(i as int),
            i + rest@.len() == input.len(),
            input.len() == count,
            kept@ == input.take(i as int).filter(keep),
            keep == other_date(version.effective_from@),
        decreases rest@.len(),
    {
        let v = rest.remove(0);
        assert(v == input[i as int]);
        assert(rest@ =~= input.skip(i + 1));
        assert(input.take(i + 1).drop_last() =~= input.take(i as int));
        proof {
            reveal(Seq::filter);
        }
        if !str_eq(v.effective_from.as_str(), version.effective_from.as_str()) {
            kept.push(v);
        }
        i = i + 1;
    }
    assert(input.take(i as int) =~= input);
    kept.push(version);
    sort_versions(kept)
}

/// The models whose published rates the settings page lists.
pub open spec fn listed_models() -> Seq<Seq<char>> {
    seq![
        "gpt-5"@, "gpt-5.1"@, "gpt-5.1-codex"@, "gpt-5.2"@, "gpt-5.2-codex"@, "gpt-5.3-codex"@,
        "gpt-5.4"@, "gpt-5.4-mini"@, "gpt-5.4-nano"@, "gpt-5.5"@, "gpt-5.6-sol"@,
        "gpt-5.6-terra"@, "gpt-5.6-luna"@,
    ]
}

/// A published rate as the settings page lists it.
#[derive(Debug)]
pub struct PricingRateDefinition {
    pub model: String,
    pub input_per_million: u64,
    pub cached_input_per_million: u64,
    pub output_per_million: u64,
    pub has_long_context_tier: bool,
}

/// `d` lists model `m` at its published rates.
pub open spec fn lists_rates(d: PricingRateDefinition, m: Seq<char>) -> bool {
    &&& d.model@ == m
    &&& builtin_rates(model_key(m)) matches Some(r) && d.input_per_million == r.input
        && d.cached_input_per_million == r.cached_input && d.output_per_million == r.output
        && d.has_long_context_tier == (r.long_context is Some)
}

/// The published rates of the listed models, in the listed order; a listed
/// model without a published rate is left out.
pub fn default_pricing_definitions() -> (r: Vec<PricingRateDefinition>)
    ensures
        forall|i: int| 0 <= i < r@.len() ==> exists|k: int|
            0 <= k < listed_models().len() && lists_rates(#[trigger] r@[i], listed_models()[k]),
        forall|k: int| 0 <= k < listed_models().len() && builtin_rates(model_key(#[trigger] listed_models()[k])) is Some
            ==> exists|i: int| 0 <= i < r@.len() && r@[i].model@ == listed_models()[k],
{
    let models: Vec<&str> = vec![
        "gpt-5", "gpt-5.1", "gpt-5.1-codex", "gpt-5.2", "gpt-5.2-codex", "gpt-5.3-codex",
        "gpt-5.4", "gpt-5.4-mini", "gpt-5.4-nano", "gpt-5.5", "gpt-5.6-sol", "gpt-5.6-terra",
        "gpt-5.6-luna",
    ];
    assert(models@.map_values(|m: &str| m@) =~= listed_models());
    let mut out: Vec<PricingRateDefinition> = Vec::new();
    let mut k: usize = 0;
    while k < models.len()
        invariant
            k <= models@.len(),
            models@.map_values(|m: &str| m@) == listed_models(),
            forall|i: int| 0 <= i < out@.len() ==> exists|k2: int|
                0 <= k2 < listed_models().len() && lists_rates(#[trigger] out@[i], listed_models()[k2]),
            forall|k2: int| 0 <= k2 < k && builtin_rates(model_key(#[trigger] listed_models()[k2])) is Some
                ==> exists|i: int| 0 <= i < out@.len() && out@[i].model@ == listed_models()[k2],
        decreases models@.len() - k,
    {
        let m = models[k];
        let ghost old_out = out@;
        assert(m@ == listed_models()[k as int]);
        if let Some(rates) = pricing_for_model(m) {
            let d = PricingRateDefinition {
                model: m.to_owned(),
                input_per_million: rates.input,
                cached_input_per_million: rates.cached_input,
                output_per_million: rates.output,
                has_long_context_tier: rates.long_context.is_some(),
            };
            assert(lists_rates(d, listed_models()[k as int]));
            out.push(d);
            assert(out@[out@.len() - 1].model@ == listed_models()[k as int]);
        }
        assert forall|k2: int| 0 <= k2 < k + 1 && builtin_rates(model_key(#[trigger] listed_models()[k2])) is Some
            implies exists|i: int| 0 <= i < out@.len() && out@[i].model@ == listed_models()[k2] by {
            if k2 < k {
                let i = choose|i: int| 0 <= i < old_out.len() && old_out[i].model@ == listed_models()[k2];
                assert(out@[i] == old_out[i]);
            } else {
                assert(out@[out@.len() - 1].model@ == listed_models()[k as int]);
            }
        }
        assert forall|i: int| 0 <= i < out@.len() implies exists|k2: int|
            0 <= k2 < listed_models().len() && lists_rates(#[trigger] out@[i], listed_models()[k2]) by {
            if i < old_out.len() {
                assert(out@[i] == old_out[i]);
            } else {
                assert(lists_rates(out@[i], listed_models()[k as int]));
            }
        }
        k = k + 1;
    }
    out
}

} // verus!

verus! {

/// A user's rates in force price each kind of token at its own rate: cached
/// tokens (at most the input tokens) at the override's cached rate, the other
/// input tokens at its input rate and output tokens at its output rate; the
/// total is their sum, and the saving is what the cached tokens would have
/// cost more at the input rate.
pub proof fn law_override_prices_each_token_kind(
    vs: Seq<PricingVersion>,
    model: Seq<char>,
    input: u64,
    cached: u64,
    output: u64,
    date: Seq<char>,
    i: int,
    j: int,
)
    requires
        pricing_rates_ok(vs),
        override_choice(vs, model, date) == Some((i, j)),
    ensures
        ({
            let o = vs[i].overrides@[j];
            let ir = rate_value(o.input_per_million) as int;
            let cr = rate_value(o.cached_input_per_million) as int;
            let or = rate_value(o.output_per_million) as int;
            let c: int = if cached <= input {
                cached as int
            } else {
                input as int
            };
            &&& estimate_spec(vs, model, input, cached, output, date) is Some
            &&& estimate_spec(vs, model, input, cached, output, date)->Some_0.cached_input == c * cr
            &&& estimate_spec(vs, model, input, cached, output, date)->Some_0.uncached_input == (input - c) * ir
            &&& estimate_spec(vs, model, input, cached, output, date)->Some_0.output == output * or
            &&& estimate_spec(vs, model, input, cached, output, date)->Some_0.total == c * cr + (input - c) * ir
                + output * or
            &&& estimate_spec(vs, model, input, cached, output, date)->Some_0.cache_savings == c * (if ir > cr {
                ir - cr
            } else {
                0
            })
        }),
{
    lemma_last_in_force_range(vs, date, vs.len());
    let k = last_in_force(vs, date, vs.len())->Some_0;
    lemma_first_for_key_range(vs[k].overrides@, model_key(model), vs[k].overrides@.len());
    assert(overrides_rates_ok(vs[i].overrides@));
    let o = vs[i].overrides@[j];
    assert(override_rates_ok(o));
    let ir = rate_value(o.input_per_million) as int;
    let cr = rate_value(o.cached_input_per_million) as int;
    let or = rate_value(o.output_per_million) as int;
    let c: int = if cached <= input {
        cached as int
    } else {
        input as int
    };
    lemma_product_bound(c, cr);
    lemma_product_bound(input - c, ir);
    lemma_product_bound(output as int, or);
    let saved: int = if ir > cr { ir - cr } else { 0 };
    lemma_product_bound(c, saved);
    assert(u64::MAX * MAX_RATE * 3 <= u128::MAX);
}

} // verus!
