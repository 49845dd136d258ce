use codex_xray::cost_scan::{parse_cost_file, CostLine};
use codex_xray::json::{JsonNumber, JsonValue};
use codex_xray::local_usage::{parse_log, parse_usage, summarize_today, LogLine, ParsedLog, TokenUsage, UsageEvent};
use codex_xray::pricing::activate_pricing_config;

fn to_json(value: &serde_json::Value) -> JsonValue {
    match value {
        serde_json::Value::Null => JsonValue::Null,
        serde_json::Value::Bool(b) => JsonValue::Bool(*b),
        serde_json::Value::Number(n) => {
            if let Some(u) = n.as_u64() {
                JsonValue::Number(JsonNumber::Unsigned(u))
            } else if let Some(i) = n.as_i64() {
                JsonValue::Number(JsonNumber::Negative(i))
            } else {
                JsonValue::Number(JsonNumber::Decimal(n.to_string()))
            }
        }
        serde_json::Value::String(s) => JsonValue::String(s.clone()),
        serde_json::Value::Array(items) => JsonValue::Array(items.iter().map(to_json).collect()),
        serde_json::Value::Object(map) => JsonValue::Object(
            map.iter().map(|(k, v)| (k.clone(), to_json(v))).collect(),
        ),
    }
}

fn log_lines(text: &str) -> Vec<LogLine> {
    text.lines()
        .map(|line| {
            let parsed = serde_json::from_str::<serde_json::Value>(line).ok().map(|v| to_json(&v));
            LogLine::Text(line.to_string(), parsed)
        })
        .collect()
}

fn cost_lines(lines: &[String]) -> Vec<CostLine> {
    lines
        .iter()
        .map(|line| {
            let bytes = format!("{line}\n").into_bytes();
            let entry = serde_json::from_slice::<serde_json::Value>(&bytes).ok().map(|v| to_json(&v));
            CostLine { bytes, entry }
        })
        .collect()
}

const TODAY: (i32, u32, u32) = (2026, 7, 26);
const EAST_EIGHT: i32 = 8 * 60 * 60;

#[test]
fn adds_last_usage_and_ignores_duplicate_cumulative_snapshot() {
    let log = [
        "{\"timestamp\":\"2026-07-26T00:00:00Z\",\"type\":\"event_msg\",\"payload\":{\"type\":\"token_count\",\"info\":{\"total_token_usage\":{\"input_tokens\":100,\"cached_input_tokens\":40,\"output_tokens\":10,\"reasoning_output_tokens\":2,\"total_tokens\":110},\"last_token_usage\":{\"input_tokens\":100,\"cached_input_tokens\":40,\"output_tokens\":10,\"reasoning_output_tokens\":2,\"total_tokens\":110}}}}\n",
        "{\"timestamp\":\"2026-07-26T00:00:01Z\",\"type\":\"event_msg\",\"payload\":{\"type\":\"token_count\",\"info\":{\"total_token_usage\":{\"input_tokens\":150,\"cached_input_tokens\":70,\"output_tokens\":15,\"reasoning_output_tokens\":3,\"total_tokens\":165},\"last_token_usage\":{\"input_tokens\":50,\"cached_input_tokens\":30,\"output_tokens\":5,\"reasoning_output_tokens\":1,\"total_tokens\":55}}}}\n",
        "{\"timestamp\":\"2026-07-26T00:00:02Z\",\"type\":\"event_msg\",\"payload\":{\"type\":\"token_count\",\"info\":{\"total_token_usage\":{\"input_tokens\":150,\"cached_input_tokens\":70,\"output_tokens\":15,\"reasoning_output_tokens\":3,\"total_tokens\":165},\"last_token_usage\":{\"input_tokens\":50,\"cached_input_tokens\":30,\"output_tokens\":5,\"reasoning_output_tokens\":1,\"total_tokens\":55}}}}\n",
    ]
    .concat();
    let parsed = parse_log(&log_lines(&log), TODAY, EAST_EIGHT);
    assert_eq!(parsed.events.len(), 2);
    let mut total = TokenUsage::zero();
    for event in parsed.events {
        total.add(&event.usage);
    }
    assert_eq!(total.input_tokens, 150);
    assert_eq!(total.cached_input_tokens, 70);
    assert_eq!(total.output_tokens, 15);
    assert_eq!(total.total_tokens, 165);
}

#[test]
fn derives_delta_when_last_usage_is_missing() {
    let log = [
        "{\"timestamp\":\"2026-07-26T00:00:00Z\",\"type\":\"event_msg\",\"payload\":{\"type\":\"token_count\",\"info\":{\"total_token_usage\":{\"input_tokens\":80,\"cached_input_tokens\":32,\"output_tokens\":8,\"total_tokens\":88}}}}\n",
        "{\"timestamp\":\"2026-07-26T00:00:01Z\",\"type\":\"event_msg\",\"payload\":{\"type\":\"token_count\",\"info\":{\"total_token_usage\":{\"input_tokens\":110,\"cached_input_tokens\":48,\"output_tokens\":12,\"total_tokens\":122}}}}\n",
    ]
    .concat();
    let parsed = parse_log(&log_lines(&log), TODAY, EAST_EIGHT);
    assert_eq!(parsed.events[1].usage.input_tokens, 30);
    assert_eq!(parsed.events[1].usage.cached_input_tokens, 16);
    assert_eq!(parsed.events[1].usage.total_tokens, 34);
}

#[test]
fn counts_malformed_lines_and_skips_other_days_and_blank_lines() {
    let log = [
        "not json\n",
        "   \n",
        "{\"type\":\"turn_context\",\"payload\":{\"model\":\"gpt-5.5\"}}\n",
        "{\"timestamp\":\"2026-07-25T15:59:59Z\",\"type\":\"event_msg\",\"payload\":{\"type\":\"token_count\",\"info\":{\"last_token_usage\":{\"input_tokens\":5}}}}\n",
        "{\"timestamp\":\"2026-07-25T16:00:00Z\",\"type\":\"event_msg\",\"payload\":{\"type\":\"token_count\",\"info\":{\"last_token_usage\":{\"input_tokens\":7,\"output_tokens\":1}}}}\n",
    ]
    .concat();
    let mut lines = log_lines(&log);
    lines.push(LogLine::Unreadable);
    let parsed = parse_log(&lines, TODAY, EAST_EIGHT);
    assert_eq!(parsed.malformed_lines, 2);
    assert_eq!(parsed.events.len(), 1);
    assert_eq!(parsed.events[0].model, "gpt-5.5");
    assert_eq!(parsed.events[0].usage.total_tokens, 8);
    assert_eq!(parsed.events[0].timestamp, "2026-07-25T16:00:00Z");
}

#[test]
fn subtraction_restarts_a_count_that_went_down() {
    let current = TokenUsage {
        input_tokens: 10,
        cached_input_tokens: 3,
        cache_write_input_tokens: 0,
        output_tokens: 50,
        reasoning_output_tokens: 0,
        total_tokens: 60,
    };
    let previous = TokenUsage { input_tokens: 4, output_tokens: 70, ..current };
    let growth = current.subtract(Some(&previous));
    assert_eq!(growth.input_tokens, 6);
    assert_eq!(growth.output_tokens, 50);
    assert_eq!(growth.total_tokens, 0);
    assert_eq!(current.subtract(None), current);
    let capped = parse_usage(&to_json(&serde_json::from_str(
        "{\"input_tokens\":18446744073709551615,\"output_tokens\":1,\"cached_input_tokens\":99}",
    ).unwrap()))
    .expect("object");
    assert_eq!(capped.total_tokens, u64::MAX);
    assert_eq!(capped.cached_input_tokens, 99);
    assert!(parse_usage(&JsonValue::Null).is_none());
}

#[test]
fn parses_project_turn_and_token_deltas_without_message_or_tool_outputs() {
    let lines = vec![
        "{\"timestamp\":\"2026-07-26T00:00:00Z\",\"type\":\"session_meta\",\"payload\":{\"id\":\"session-1\",\"cwd\":\"/tmp/demo\"}}".to_string(),
        "{\"timestamp\":\"2026-07-26T00:00:00.100Z\",\"type\":\"event_msg\",\"payload\":{\"type\":\"task_started\",\"turn_id\":\"turn-1\"}}".to_string(),
        "{\"timestamp\":\"2026-07-26T00:00:00.200Z\",\"type\":\"turn_context\",\"payload\":{\"turn_id\":\"turn-1\",\"model\":\"gpt-5.4\"}}".to_string(),
        "{\"timestamp\":\"2026-07-26T00:00:01Z\",\"type\":\"event_msg\",\"payload\":{\"type\":\"token_count\",\"info\":{\"total_token_usage\":{\"input_tokens\":100,\"cached_input_tokens\":40,\"output_tokens\":10,\"total_tokens\":110},\"last_token_usage\":{\"input_tokens\":100,\"cached_input_tokens\":40,\"output_tokens\":10,\"total_tokens\":110}}}}".to_string(),
        "{\"timestamp\":\"2026-07-26T00:00:02Z\",\"type\":\"response_item\",\"payload\":{\"content\":\"private source text\"}}".to_string(),
    ];
    let indexed = parse_cost_file(&cost_lines(&lines), 1_024, 7);
    assert_eq!(indexed.events.len(), 1);
    assert_eq!(indexed.events[0].model, "gpt-5.4");
    assert_eq!(indexed.events[0].cached_input_tokens, 40);
    assert_eq!(indexed.events[0].turn_id, "turn-1");
    assert_eq!(indexed.cwd.as_deref(), Some("/tmp/demo"));
    assert!(indexed.turns.iter().any(|(id, _)| id == "turn-1"));
}

#[test]
fn records_session_identity_fork_origin_and_turn_times() {
    let lines = vec![
        "{\"timestamp\":\"2026-07-26T00:00:05Z\",\"type\":\"session_meta\",\"payload\":{\"id\":\"child\",\"forked_from_id\":\"\",\"source\":{\"subagent\":{\"thread_spawn\":{\"parent_thread_id\":\"parent\"}}}}}".to_string(),
        "{\"timestamp\":\"2026-07-26T00:00:01Z\",\"type\":\"session_meta\",\"payload\":{\"id\":\"other\",\"cwd\":\"/work\"}}".to_string(),
        "{\"timestamp\":\"2026-07-26T00:00:06Z\",\"type\":\"turn_context\",\"payload\":{\"turn_id\":\"b\"}}".to_string(),
        "{\"timestamp\":\"2026-07-26T00:00:07Z\",\"type\":\"event_msg\",\"payload\":{\"type\":\"task_started\",\"turn_id\":\"a\",\"started_at\":\"2026-07-26T00:00:03Z\"}}".to_string(),
        "{\"timestamp\":\"2026-07-26T00:00:09Z\",\"type\":\"event_msg\",\"payload\":{\"type\":\"task_complete\",\"turn_id\":\"a\",\"completed_at\":\"2026-07-26T00:00:08Z\"}}".to_string(),
        "{\"type\":\"event_msg\",\"payload\":{\"type\":\"token_count\",\"info\":{\"last_token_usage\":{\"input_tokens\":3}}}}".to_string(),
        "{\"timestamp\":\"yesterday\",\"type\":\"event_msg\",\"payload\":{\"type\":\"token_count\",\"info\":{\"last_token_usage\":{\"input_tokens\":3}}}}".to_string(),
        "token_count but not json".to_string(),
        "plain text is passed over".to_string(),
    ];
    let indexed = parse_cost_file(&cost_lines(&lines), 0, 0);
    assert_eq!(indexed.session_id.as_deref(), Some("child"));
    // An empty `forked_from_id` is a present value, so the sub-agent parent is not consulted.
    assert_eq!(indexed.parent_id, None);
    assert_eq!(indexed.forked_at_ms, Some(1_785_024_005_000));
    assert_eq!(indexed.cwd.as_deref(), Some("/work"));
    assert_eq!(indexed.started_at_ms, Some(1_785_024_001_000));
    assert_eq!(indexed.updated_at_ms, Some(1_785_024_009_000));
    assert_eq!(indexed.malformed_lines, 2);
    assert!(indexed.events.is_empty());
    let ids: Vec<&str> = indexed.turns.iter().map(|(id, _)| id.as_str()).collect();
    assert_eq!(ids, vec!["a", "b"]);
    assert_eq!(indexed.turns[0].1.started_at_ms, Some(1_785_024_003_000));
    assert_eq!(indexed.turns[0].1.updated_at_ms, Some(1_785_024_008_000));
    assert_eq!(indexed.turns[1].1.started_at_ms, Some(1_785_024_006_000));
}

fn usage_event(timestamp_ms: i64, timestamp: &str, model: &str, input: u64, cached: u64, output: u64) -> UsageEvent {
    UsageEvent {
        timestamp_ms,
        timestamp: timestamp.to_string(),
        model: model.to_string(),
        usage: TokenUsage {
            input_tokens: input,
            cached_input_tokens: cached,
            cache_write_input_tokens: 0,
            output_tokens: output,
            reasoning_output_tokens: 0,
            total_tokens: input + output,
        },
    }
}

#[test]
fn summarizes_today_once_per_call_with_costs_and_models() {
    let pricing = activate_pricing_config(None, "now").expect("no file");
    let logs = vec![
        ParsedLog {
            events: vec![
                usage_event(2_000, "b", "gpt-5.4", 1_000, 400, 100),
                usage_event(1_000, "a", "glm-5", 10, 0, 5),
            ],
            malformed_lines: 1,
        },
        ParsedLog {
            events: vec![
                usage_event(2_000, "b-again", "gpt-5.4", 1_000, 400, 100),
                usage_event(2_000, "c", "gpt-5.4-mini", 20, 0, 2),
            ],
            malformed_lines: 2,
        },
    ];
    let summary = summarize_today(&logs, &pricing, "2026-07-26");
    assert_eq!(summary.token_events, 3);
    assert_eq!(summary.duplicate_events_skipped, 1);
    assert_eq!(summary.malformed_lines_skipped, 3);
    assert_eq!(summary.usage.input_tokens, 1_030);
    assert_eq!(summary.usage.cached_input_tokens, 400);
    assert_eq!(summary.uncached_input_tokens, 630);
    assert_eq!(summary.priced_tokens, 1_100 + 22);
    assert_eq!(summary.unpriced_tokens, 15);
    // Ties keep the first event seen at that instant.
    assert_eq!(summary.latest_event_at.as_deref(), Some("b"));
    assert_eq!(summary.models, vec!["glm-5", "gpt-5.4", "gpt-5.4-mini"]);
    let expected_total: u128 = 600 * 2_500_000 + 400 * 250_000 + 100 * 15_000_000 + 20 * 750_000 + 2 * 4_500_000;
    assert_eq!(summary.cost.total, expected_total);
    assert_eq!(summary.cost.cache_savings, 400 * (2_500_000 - 250_000));
}
