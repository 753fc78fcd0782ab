use open_sonar::cost::{calculate_cost, get_pricing};
use open_sonar::parser::TokenUsage;

fn usage(input: u64, output: u64, cache_read: u64, cache_creation: u64) -> TokenUsage {
    TokenUsage {
        input_tokens: input,
        output_tokens: output,
        cache_read_input_tokens: cache_read,
        cache_creation_input_tokens: cache_creation,
    }
}

#[test]
fn pricing_matches_by_substring() {
    let p = get_pricing("opus-4");
    assert_eq!(p.input_pico_per_token, 15_000_000);
    assert_eq!(p.output_pico_per_token, 75_000_000);
    assert_eq!(p.cache_read_pico_per_token, 1_500_000);
    assert_eq!(p.cache_creation_pico_per_token, 18_750_000);

    let h = get_pricing("haiku-3");
    assert_eq!(h.input_pico_per_token, 250_000);
    assert_eq!(h.output_pico_per_token, 1_250_000);
    assert_eq!(h.cache_read_pico_per_token, 25_000);
    assert_eq!(h.cache_creation_pico_per_token, 312_500);
}

#[test]
fn pricing_sonnet_latest_is_sonnet_row() {
    let p = get_pricing("3-5-sonnet-latest");
    assert_eq!(p.input_pico_per_token, 3_000_000);
    assert_eq!(p.output_pico_per_token, 15_000_000);
    assert_eq!(p.cache_read_pico_per_token, 300_000);
    assert_eq!(p.cache_creation_pico_per_token, 3_750_000);
}

#[test]
fn pricing_unknown_falls_back_to_sonnet() {
    let p = get_pricing("");
    let s = get_pricing("sonnet-anything");
    assert_eq!(p, s);
    let q = get_pricing("mystery-model");
    assert_eq!(q, s);
}

#[test]
fn pricing_priority_order_prefers_opus() {
    // A name holding both markers goes to the opus row.
    let p = get_pricing("opus-sonnet-mix");
    assert_eq!(p.input_pico_per_token, 15_000_000);
}

#[test]
fn cost_scenario_opus() {
    // One million input and half a million output tokens under opus rates:
    // 15 USD input, 37.5 USD output, 52.5 USD in all.
    let u = usage(1_000_000, 500_000, 0, 0);
    let c = calculate_cost(&u, "opus-4");
    assert_eq!(c, 52_500_000_000_000u128);
    assert_eq!(c as f64 / 1e12, 52.5);

    let input_only = calculate_cost(&usage(1_000_000, 0, 0, 0), "opus-4");
    assert_eq!(input_only as f64 / 1e12, 15.0);
    let output_only = calculate_cost(&usage(0, 500_000, 0, 0), "opus-4");
    assert_eq!(output_only as f64 / 1e12, 37.5);
}

#[test]
fn cost_is_linear_under_splitting() {
    let whole = usage(101, 57, 13, 9);
    let a = usage(50, 28, 6, 4);
    let b = usage(51, 29, 7, 5);
    for model in ["opus-4", "3-5-sonnet-latest", "haiku", "unknown-model"] {
        let cw = calculate_cost(&whole, model);
        let ca = calculate_cost(&a, model);
        let cb = calculate_cost(&b, model);
        assert_eq!(cw, ca + cb);
    }
}

#[test]
fn cost_of_zero_usage_is_zero() {
    assert_eq!(calculate_cost(&usage(0, 0, 0, 0), "opus-4"), 0);
}

#[test]
fn cost_sonnet_hundred_output_tokens() {
    // 100 output tokens under sonnet rates are 0.0015 USD.
    let c = calculate_cost(&usage(0, 100, 0, 0), "sonnet");
    assert_eq!(c, 1_500_000_000u128);
}
