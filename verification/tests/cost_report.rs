use codex_xray::cost_report::{cost_warnings, estimate_costs, reusable_entry, Aggregate};
use codex_xray::pricing::activate_pricing_config;
use codex_xray::usage::{CostUsageEvent, IndexedFile};

fn event(timestamp_ms: i64, date: &str, model: &str, input: u64, output: u64) -> CostUsageEvent {
    CostUsageEvent {
        timestamp_ms,
        date: date.to_string(),
        turn_id: "turn-1".to_string(),
        model: model.to_string(),
        input_tokens: input,
        cached_input_tokens: 0,
        cache_write_input_tokens: 0,
        output_tokens: output,
        total_tokens: input + output,
    }
}

fn file(session_id: &str, parent_id: Option<&str>, forked_at_ms: Option<i64>, malformed_lines: u64, events: Vec<CostUsageEvent>) -> IndexedFile {
    IndexedFile {
        length: 0,
        modified_ms: 0,
        malformed_lines,
        session_id: Some(session_id.to_string()),
        parent_id: parent_id.map(str::to_string),
        forked_at_ms,
        cwd: None,
        started_at_ms: None,
        updated_at_ms: None,
        turns: Vec::new(),
        project_metadata_indexed: true,
        events,
    }
}

fn aggregate<'a>(list: &'a [(String, Aggregate)], name: &str) -> &'a Aggregate {
    &list.iter().find(|(key, _)| key == name).expect("listed").1
}

#[test]
fn counts_each_call_once_and_skips_usage_replayed_into_forks() {
    let pricing = activate_pricing_config(None, "now").expect("no file");
    let files = vec![
        file("s1", None, None, 2, vec![
            event(1_000, "2026-07-25", "gpt-5.4", 1_000, 100),
            event(2_000, "2026-07-26", "glm-5", 10, 5),
        ]),
        file("s2", Some("s1"), Some(1_500), 0, vec![
            event(3_000, "2026-07-26", "gpt-5.4", 1_000, 100),
            event(4_000, "2026-07-26", "gpt-5.4", 200, 20),
        ]),
        file("s3", None, None, 1, vec![event(4_000, "2026-07-27", "gpt-5.4", 200, 20)]),
    ];
    let estimate = estimate_costs(&files, &vec![true, false, true], &pricing, "2026-07-26");
    assert_eq!(estimate.coverage_start.as_deref(), Some("2026-07-25"));
    assert_eq!(estimate.coverage_end.as_deref(), Some("2026-07-26"));
    assert_eq!(estimate.files_indexed, 3);
    assert_eq!(estimate.files_reused, 2);
    assert_eq!(estimate.files_scanned, 1);
    let day_sum: u64 = estimate.daily.iter().map(|(_, d)| d.usage.total_tokens).sum();
    assert_eq!(day_sum, estimate.total.total_tokens);
    assert_eq!(estimate.token_events, 3);
    assert_eq!(estimate.duplicate_events_skipped, 1);
    assert_eq!(estimate.replayed_events_skipped, 1);
    assert_eq!(estimate.malformed_lines, 3);
    assert_eq!(estimate.total.total_tokens, 1_100 + 15 + 220);
    assert_eq!(estimate.total.unpriced_tokens, 15);
    assert_eq!(estimate.total.priced_tokens, 1_320);
    let dates: Vec<&str> = estimate.daily.iter().map(|(date, _)| date.as_str()).collect();
    assert_eq!(dates, vec!["2026-07-25", "2026-07-26"]);
    let day = &estimate.daily[1].1;
    assert_eq!(day.usage.total_tokens, 15 + 220);
    let day_models: Vec<&str> = day.models.iter().map(|(model, _)| model.as_str()).collect();
    assert_eq!(day_models, vec!["glm-5", "gpt-5.4"]);
    let gpt = aggregate(&estimate.models, "gpt-5.4");
    assert_eq!(gpt.input_tokens, 1_200);
    assert_eq!(gpt.cost.total, 1_200 * 2_500_000 + 120 * 15_000_000);
    assert_eq!(
        cost_warnings(&estimate),
        vec![
            "3 行本地日志无法解析，已跳过；不会影响 Codex 本身".to_string(),
            "glm-5 暂无公开 API 单价，相关 Token 未计入金额".to_string(),
        ]
    );
}

#[test]
fn adds_aggregates_field_by_field() {
    let mut left = Aggregate::zero();
    left.add_event(&event(1, "d", "gpt-5.4", 10, 1), None);
    let mut right = Aggregate::zero();
    right.add_event(&event(2, "d", "gpt-5.4", 5, 2), None);
    left.add_aggregate(&right);
    assert_eq!(left.input_tokens, 15);
    assert_eq!(left.output_tokens, 3);
    assert_eq!(left.unpriced_tokens, 18);
    assert_eq!(left.priced_tokens, 0);
    assert!(cost_warnings(&estimate_costs(&Vec::new(), &Vec::new(), &activate_pricing_config(None, "").unwrap(), "d")).is_empty());
    let empty = estimate_costs(&Vec::new(), &Vec::new(), &activate_pricing_config(None, "").unwrap(), "d");
    assert_eq!(empty.coverage_start, None);
    assert_eq!(empty.coverage_end, None);
    assert_eq!(empty.files_indexed, 0);
}

#[test]
fn keeps_an_index_entry_only_while_the_log_is_unchanged() {
    let mut kept = file("s1", None, None, 0, Vec::new());
    kept.length = 120;
    kept.modified_ms = 7;
    let previous = vec![("/logs/a.jsonl".to_string(), kept), ("/logs/b.jsonl".to_string(), file("s2", None, None, 0, Vec::new()))];
    assert_eq!(reusable_entry(&previous, "/logs/a.jsonl", 120, 7), Some(0));
    assert_eq!(reusable_entry(&previous, "/logs/a.jsonl", 121, 7), None);
    assert_eq!(reusable_entry(&previous, "/logs/a.jsonl", 120, 8), None);
    assert_eq!(reusable_entry(&previous, "/logs/b.jsonl", 0, 0), Some(1));
    assert_eq!(reusable_entry(&previous, "/logs/c.jsonl", 0, 0), None);
}
