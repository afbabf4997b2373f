use gitgud_greedy::amount::{
    format_cents, format_id, format_int, format_u64, parse_amount, replace_char,
};
use gitgud_greedy::aggregate::MAX_AMOUNT_CENTS;
use gitgud_greedy::dates::{code_date, format_date, matches_filter, month_of, year_of};

#[test]
fn parse_plain_amounts() {
    assert_eq!(parse_amount("12.34"), Some(1234));
    assert_eq!(parse_amount("12.3"), Some(1230));
    assert_eq!(parse_amount("12"), Some(1200));
    assert_eq!(parse_amount("0"), Some(0));
    assert_eq!(parse_amount("-5"), Some(-500));
    assert_eq!(parse_amount("-0.05"), Some(-5));
}

#[test]
fn parse_rejects_malformed_amounts() {
    assert_eq!(parse_amount("abc"), None);
    assert_eq!(parse_amount(""), None);
    assert_eq!(parse_amount("-"), None);
    assert_eq!(parse_amount(".5"), None);
    assert_eq!(parse_amount("5."), None);
    assert_eq!(parse_amount("1.234"), None);
    assert_eq!(parse_amount("1.2.3"), None);
    assert_eq!(parse_amount("1e5"), None);
    assert_eq!(parse_amount("12,34"), None);
}

#[test]
fn parse_rejects_out_of_range_amounts() {
    assert_eq!(parse_amount("99999999999999999999"), None);
    assert_eq!(parse_amount("92233720368547758.07"), None);
}

#[test]
fn decimal_comma_normalization() {
    let normalized = replace_char("12,34", ',', '.');
    assert_eq!(normalized, "12.34");
    assert_eq!(parse_amount(normalized.as_str()), Some(1234));
}

#[test]
fn cents_formatting() {
    assert_eq!(format_cents(1234), "12.34");
    assert_eq!(format_cents(500), "5.00");
    assert_eq!(format_cents(0), "0.00");
    assert_eq!(format_cents(-5), "-0.05");
    assert_eq!(format_cents(-123456), "-1234.56");
}

#[test]
fn integer_formatting() {
    assert_eq!(format_int(0), "0");
    assert_eq!(format_int(-120), "-120");
    assert_eq!(format_u64(98765), "98765");
    assert_eq!(format_id(5), "05");
    assert_eq!(format_id(12), "12");
    assert_eq!(format_id(-3), "-3");
}

#[test]
fn date_coding() {
    assert_eq!(code_date("2024-01-02"), Some(20240102));
    assert_eq!(code_date("1999-12-31"), Some(19991231));
    assert_eq!(code_date("2024-13-01"), None);
    assert_eq!(code_date("2024-00-10"), None);
    assert_eq!(code_date("2024-01-32"), None);
    assert_eq!(code_date("24-01-01"), None);
    assert_eq!(code_date("2024/01/02"), None);
    assert_eq!(code_date("abcd-ef-gh"), None);
}

#[test]
fn slash_date_normalization() {
    let normalized = replace_char("2024/01/02", '/', '-');
    assert_eq!(normalized, "2024-01-02");
    assert_eq!(code_date(normalized.as_str()), Some(20240102));
}

#[test]
fn date_parts_and_filters() {
    let c = 20240102;
    assert_eq!(year_of(c), 2024);
    assert_eq!(month_of(c), 1);
    assert!(matches_filter(c, None, None));
    assert!(matches_filter(c, Some(2024), None));
    assert!(matches_filter(c, Some(2024), Some(1)));
    assert!(!matches_filter(c, Some(2023), None));
    assert!(!matches_filter(c, None, Some(2)));
}

#[test]
fn date_rendering_round_trip() {
    assert_eq!(format_date(20240102), "2024-01-02");
    assert_eq!(code_date("2024-01-02"), Some(20240102));
}

#[test]
fn amounts_at_the_ledger_cap() {
    assert_eq!(MAX_AMOUNT_CENTS, 35184372088832);
    assert_eq!(parse_amount("351843720888.32"), Some(MAX_AMOUNT_CENTS));
    assert_eq!(parse_amount("-351843720888.32"), Some(-MAX_AMOUNT_CENTS));
    assert_eq!(parse_amount("351843720888.33"), None);
    assert_eq!(parse_amount("351843720889"), None);
}
