use codex_xray::pricing::{
    activate_pricing_config, default_pricing_definitions, estimate_cost, estimate_standard_api_cost_at,
    estimate_standard_api_cost_on, merge_pricing_version, normalize_model, pricing_for_model,
    pricing_metadata, pricing_override_for_versions, read_pricing_config, strip_date_suffix,
    text_less, validate_effective_date, validate_overrides, validate_pricing_request,
    ActivePricing, CostBreakdown, PricingApplyRequest, PricingConfigFile, PricingOverride,
    PricingVersion, DEFAULT_PRICING_BASIS, DEFAULT_PRICING_UPDATED_AT,
};

/// A rate in USD per million tokens as the app hands it over: micro-USD, or
/// `None` when it is not a finite, non-negative number.
fn rate(value: f64) -> Option<u64> {
    if value.is_finite() && value >= 0.0 {
        Some((value * 1_000_000.0).round() as u64)
    } else {
        None
    }
}

fn usd(value: u128) -> f64 {
    value as f64 / 1e12
}

fn no_pricing() -> ActivePricing {
    activate_pricing_config(None, "2026-07-26T00:00:00Z").expect("empty pricing")
}

fn estimate(model: &str, input: u64, cached: u64, output: u64) -> Option<CostBreakdown> {
    estimate_standard_api_cost_on(&no_pricing(), model, input, cached, output, "2026-07-26")
}

fn custom(model: &str, input: f64, cached: f64, output: f64) -> PricingOverride {
    PricingOverride {
        model: model.to_string(),
        input_per_million: rate(input),
        cached_input_per_million: rate(cached),
        output_per_million: rate(output),
    }
}

#[test]
fn prices_cached_input_separately() {
    let cost = estimate("gpt-5.4", 1_000_000, 900_000, 10_000).expect("known model");
    // Long-context pricing applies to the entire request.
    assert!((usd(cost.uncached_input) - 0.5).abs() < 1e-9);
    assert!((usd(cost.cached_input) - 0.45).abs() < 1e-9);
    assert!((usd(cost.output) - 0.225).abs() < 1e-9);
    assert!((usd(cost.cache_savings) - 4.05).abs() < 1e-9);
}

#[test]
fn accepts_dated_model_names() {
    assert!(estimate("gpt-5.6-sol-2026-06-18", 100, 50, 10).is_some());
}

#[test]
fn leaves_unpublished_models_unpriced() {
    assert!(estimate("gpt-5.3-codex-spark-preview", 100, 50, 10).is_none());
}

#[test]
fn validates_and_canonicalizes_custom_pricing_keys() {
    let result = validate_overrides(vec![
        custom(" glm-5 ", 1.0, 0.1, 8.0),
        custom("gpt-5.6-sol", 3.0, 0.3, 18.0),
    ])
    .expect("valid pricing");
    assert_eq!(result[0].model, "glm-5");
    assert_eq!(result[1].model, "gpt-5.6-sol");

    let duplicate = validate_overrides(vec![
        custom("gpt-5.6-sol", 1.0, 0.1, 8.0),
        custom("GPT-5.6-SOL-2026-06-18", 2.0, 0.2, 10.0),
    ]);
    assert!(duplicate.is_err());
}

#[test]
fn rejects_invalid_custom_prices() {
    let result = validate_overrides(vec![custom("glm-5", -1.0, 0.1, f64::NAN)]);
    assert!(result.is_err());
}

fn version(effective_from: &str, created_at: &str, overrides: Vec<PricingOverride>) -> PricingVersion {
    PricingVersion {
        effective_from: effective_from.to_string(),
        created_at: created_at.to_string(),
        overrides,
    }
}

#[test]
fn selects_custom_price_by_event_date() {
    let versions = vec![
        version("2026-01-01", "2026-01-01T00:00:00Z", vec![custom("gpt-5.6-sol", 2.0, 0.2, 12.0)]),
        version("2026-07-01", "2026-07-01T00:00:00Z", vec![custom("gpt-5.6-sol", 5.0, 0.5, 30.0)]),
    ];
    let input_rate = |date: &str| {
        pricing_override_for_versions(&versions, "gpt-5.6-sol", date)
            .map(|rate| rate.input_per_million.map(|v| v as f64 / 1e6))
    };
    assert_eq!(input_rate("2026-06-30"), Some(Some(2.0)));
    assert_eq!(input_rate("2026-07-01"), Some(Some(5.0)));
    assert!(pricing_override_for_versions(&versions, "gpt-5.6-sol", "2025-12-31").is_none());
}

#[test]
fn strips_only_a_full_release_date() {
    assert_eq!(strip_date_suffix("gpt-5.4-2026-03-05"), "gpt-5.4");
    assert_eq!(strip_date_suffix("gpt-5.4-2026-3-05"), "gpt-5.4-2026-3-05");
    assert_eq!(strip_date_suffix("2026-03-05"), "2026-03-05");
    assert_eq!(strip_date_suffix("-2026-03-05"), "");
    assert_eq!(normalize_model("  GPT-5.4-Mini-2026-03-05 "), "gpt-5.4-mini");
}

#[test]
fn looks_up_published_rates_in_micro_dollars() {
    let rates = pricing_for_model("gpt-5.4-nano").expect("published");
    assert_eq!((rates.input, rates.cached_input, rates.output), (200_000, 20_000, 1_250_000));
    assert!(rates.long_context.is_none());
    let tiered = pricing_for_model("GPT-5.5").expect("published");
    let long = tiered.long_context.expect("long-context tier");
    assert_eq!((long.threshold, long.input, long.cached_input, long.output), (272_000, 10_000_000, 1_000_000, 45_000_000));
    assert!(pricing_for_model("glm-5").is_none());
}

#[test]
fn caps_cached_tokens_at_input_and_uses_base_rates_below_threshold() {
    let rates = pricing_for_model("gpt-5.4").expect("published");
    let cost = estimate_cost(rates, 100, 500, 7);
    assert_eq!(cost.uncached_input, 0);
    assert_eq!(cost.cached_input, 100 * 250_000);
    assert_eq!(cost.output, 7 * 15_000_000);
    assert_eq!(cost.total, 100 * 250_000 + 7 * 15_000_000);
    assert_eq!(cost.cache_savings, 100 * (2_500_000 - 250_000));
    let at_threshold = estimate_cost(rates, 272_000, 0, 0);
    assert_eq!(at_threshold.uncached_input, 272_000 * 2_500_000);
}

#[test]
fn names_the_first_problem_of_custom_rates() {
    let empty = validate_overrides(vec![custom("   ", 1.0, 0.1, 8.0)]).unwrap_err();
    assert_eq!(empty, "模型 ID 不能为空");
    let long = "m".repeat(201);
    let too_long = validate_overrides(vec![custom(&long, 1.0, 0.1, 8.0)]).unwrap_err();
    assert_eq!(too_long, format!("模型 ID 过长：{long}"));
    let duplicate = validate_overrides(vec![custom("a", 1.0, 0.1, 8.0), custom(" A ", 1.0, 0.1, 8.0)]).unwrap_err();
    assert_eq!(duplicate, "模型单价重复：A");
    let cached = validate_overrides(vec![custom("glm-5", 1.0, -0.1, 8.0)]).unwrap_err();
    assert_eq!(cached, "glm-5 的缓存输入单价必须在 0 到 1,000,000 USD / 1M Token 之间");
    let output = validate_overrides(vec![custom("glm-5", 1.0, 0.1, 2_000_000.0)]).unwrap_err();
    assert_eq!(output, "glm-5 的输出单价必须在 0 到 1,000,000 USD / 1M Token 之间");
}

#[test]
fn orders_validated_rates_by_model() {
    let result = validate_overrides(vec![custom("b", 1.0, 0.1, 8.0), custom("a", 2.0, 0.2, 9.0), custom("B", 3.0, 0.3, 10.0)]);
    assert!(result.is_err());
    let ordered = validate_overrides(vec![custom("zeta", 1.0, 0.1, 8.0), custom("Alpha", 2.0, 0.2, 9.0), custom("beta", 3.0, 0.3, 10.0)])
        .expect("valid");
    let models: Vec<&str> = ordered.iter().map(|o| o.model.as_str()).collect();
    assert_eq!(models, vec!["Alpha", "beta", "zeta"]);
    assert!(text_less("Alpha", "beta"));
    assert!(!text_less("beta", "beta"));
}

#[test]
fn canonicalizes_effective_dates() {
    assert_eq!(validate_effective_date(" 2026-07-01 ").unwrap(), "2026-07-01");
    assert_eq!(validate_effective_date("2026-7-1").unwrap(), "2026-07-01");
    assert_eq!(validate_effective_date("07/01/2026").unwrap_err(), "单价生效日期必须是 YYYY-MM-DD。");
}

fn file(schema_version: u32, updated_at: Option<&str>, overrides: Vec<PricingOverride>, versions: Vec<PricingVersion>) -> PricingConfigFile {
    PricingConfigFile { schema_version, updated_at: updated_at.map(str::to_string), overrides, versions }
}

#[test]
fn reads_version_one_files_as_one_legacy_version() {
    let (updated_at, versions) = read_pricing_config(
        file(1, None, vec![custom("glm-5", 1.0, 0.1, 8.0)], Vec::new()),
        "2026-07-26T08:00:00Z",
    )
    .expect("valid file");
    assert_eq!(updated_at, None);
    assert_eq!(versions.len(), 1);
    assert_eq!(versions[0].effective_from, "1970-01-01");
    assert_eq!(versions[0].created_at, "2026-07-26T08:00:00Z");
    let (_, none) = read_pricing_config(file(1, Some("x"), Vec::new(), Vec::new()), "now").expect("valid");
    assert!(none.is_empty());
}

#[test]
fn rejects_unknown_versions_repeated_dates_and_bad_times() {
    let unknown = read_pricing_config(file(3, None, Vec::new(), Vec::new()), "now").unwrap_err();
    assert_eq!(unknown, "不支持的单价设置版本：3");
    let repeated = read_pricing_config(
        file(2, None, Vec::new(), vec![
            version("2026-01-01", "2026-01-01T00:00:00Z", Vec::new()),
            version("2026-1-1", "2026-01-02T00:00:00Z", Vec::new()),
        ]),
        "now",
    )
    .unwrap_err();
    assert_eq!(repeated, "单价生效日期重复：2026-01-01");
    let bad_time = read_pricing_config(
        file(2, None, Vec::new(), vec![version("2026-01-01", "yesterday", Vec::new())]),
        "now",
    )
    .unwrap_err();
    assert_eq!(bad_time, "单价版本时间无效：yesterday");
}

#[test]
fn orders_versions_by_effective_date() {
    let (_, versions) = read_pricing_config(
        file(2, Some("2026-07-02T00:00:00Z"), Vec::new(), vec![
            version("2026-07-01", "2026-07-01T00:00:00Z", Vec::new()),
            version("2026-01-01", "2026-01-01T00:00:00Z", Vec::new()),
        ]),
        "now",
    )
    .expect("valid");
    assert_eq!(versions[0].effective_from, "2026-01-01");
    assert_eq!(versions[1].effective_from, "2026-07-01");
}

#[test]
fn reports_custom_pricing_only_while_a_version_is_in_force() {
    let pricing = activate_pricing_config(
        Some(file(2, Some("2026-07-02T00:00:00Z"), Vec::new(), vec![version(
            "2026-07-01",
            "2026-07-01T00:00:00Z",
            vec![custom("glm-5", 1.0, 0.1, 8.0)],
        )])),
        "now",
    )
    .expect("valid");
    let (basis, updated_at) = pricing_metadata(&pricing, "2026-06-30");
    assert_eq!(basis, DEFAULT_PRICING_BASIS);
    assert_eq!(updated_at, DEFAULT_PRICING_UPDATED_AT);
    let (basis, updated_at) = pricing_metadata(&pricing, "2026-07-01");
    assert_eq!(basis, format!("{DEFAULT_PRICING_BASIS} + 用户自定义版本化单价"));
    assert_eq!(updated_at, "2026-07-02T00:00:00Z");
    let cost = estimate_standard_api_cost_at(&pricing, "GLM-5", 1_000, 0, 100, 1_782_864_000_000, "2026-01-01")
        .expect("custom rate in force");
    assert_eq!(cost.uncached_input, 1_000 * 1_000_000);
    assert_eq!(cost.output, 100 * 8_000_000);
    assert!(estimate_standard_api_cost_at(&pricing, "glm-5", 1_000, 0, 100, 1_767_225_600_000, "2026-07-26").is_none());
}

#[test]
fn storing_a_version_replaces_the_one_of_the_same_date() {
    let (overrides, date) = validate_pricing_request(PricingApplyRequest {
        overrides: vec![custom("glm-5", 2.0, 0.2, 9.0)],
        effective_from: "2026-7-1".to_string(),
    })
    .expect("valid request");
    assert_eq!(date, "2026-07-01");
    let merged = merge_pricing_version(
        vec![
            version("2026-07-01", "2026-07-01T00:00:00Z", Vec::new()),
            version("2026-01-01", "2026-01-01T00:00:00Z", Vec::new()),
        ],
        version(&date, "2026-07-05T00:00:00Z", overrides),
    );
    assert_eq!(merged.len(), 2);
    assert_eq!(merged[0].effective_from, "2026-01-01");
    assert_eq!(merged[1].created_at, "2026-07-05T00:00:00Z");
    assert_eq!(merged[1].overrides.len(), 1);
    let bad = validate_pricing_request(PricingApplyRequest { overrides: Vec::new(), effective_from: "soon".to_string() });
    assert_eq!(bad.unwrap_err(), "单价生效日期必须是 YYYY-MM-DD。");
}

#[test]
fn lists_every_published_model() {
    let definitions = default_pricing_definitions();
    assert_eq!(definitions.len(), 13);
    assert_eq!(definitions[0].model, "gpt-5");
    assert_eq!(definitions[0].input_per_million, 1_250_000);
    assert!(definitions[12].has_long_context_tier);
}
