use api_usage_analyzer::helpers::{format_currency, format_tokens, parse_period_to_days};
use api_usage_analyzer::models::ApiUsage;

#[test]
fn cost_of_example_request_is_three_cents() {
    // 1500 input tokens at $0.01 per 1k and 500 output tokens at $0.03 per 1k.
    assert_eq!(ApiUsage::calculate_cost(1500, 500, 10_000, 30_000), 3);
}

#[test]
fn cost_rounds_half_cent_up() {
    assert_eq!(ApiUsage::calculate_cost(1, 0, 5_000_000, 0), 1);
    assert_eq!(ApiUsage::calculate_cost(1, 0, 4_999_999, 0), 0);
    assert_eq!(ApiUsage::calculate_cost(0, 0, 30_000, 60_000), 0);
}

#[test]
fn cost_of_largest_inputs_fits() {
    let c = ApiUsage::calculate_cost(i32::MAX, i32::MAX, u32::MAX, u32::MAX);
    assert_eq!(c, 1_844_674_406_082);
}

#[test]
fn tokens_formatting() {
    assert_eq!(format_tokens(1_500_000), "1.50M");
    assert_eq!(format_tokens(1_000), "1.00K");
    assert_eq!(format_tokens(2_345), "2.34K");
    assert_eq!(format_tokens(2_355), "2.36K");
    assert_eq!(format_tokens(999_999), "1000.00K");
    assert_eq!(format_tokens(999), "999");
    assert_eq!(format_tokens(0), "0");
    assert_eq!(format_tokens(-42), "-42");
    assert_eq!(format_tokens(i64::MIN), "-9223372036854775808");
}

#[test]
fn currency_formatting() {
    assert_eq!(format_currency(1234), "$12.34");
    assert_eq!(format_currency(5), "$0.05");
    assert_eq!(format_currency(0), "$0.00");
}

#[test]
fn period_table() {
    assert_eq!(parse_period_to_days("24h"), 1);
    assert_eq!(parse_period_to_days("1d"), 1);
    assert_eq!(parse_period_to_days("7d"), 7);
    assert_eq!(parse_period_to_days("30d"), 30);
    assert_eq!(parse_period_to_days("90d"), 90);
    assert_eq!(parse_period_to_days("yearly"), 7);
    assert_eq!(parse_period_to_days(""), 7);
}

