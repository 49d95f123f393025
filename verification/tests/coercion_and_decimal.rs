use leadswarm_native::record::{
    extract_bool, extract_opt_bool, extract_opt_int, extract_opt_number, extract_opt_string,
    extract_signals, extract_string_list,
};
use leadswarm_native::{dec_parse, parse_prospect, Dec, FieldValue, LooseRecord};

fn entry(key: &str, value: FieldValue) -> (String, FieldValue) {
    (key.to_string(), value)
}

fn sample() -> LooseRecord {
    LooseRecord {
        entries: vec![
            entry("name", FieldValue::Text("Acme".to_string())),
            entry("rating", FieldValue::Number(Dec { neg: false, mantissa: 45, scale: 1 })),
            entry("review_count", FieldValue::Integer(12)),
            entry("found_in_ads", FieldValue::Boolean(true)),
            entry("emails", FieldValue::TextList(vec!["a@x.com".to_string()])),
            entry("phone", FieldValue::Null),
            entry("name", FieldValue::Text("Shadowed".to_string())),
        ],
    }
}

#[test]
fn missing_keys_coerce_to_absent_or_default() {
    let rec = LooseRecord { entries: vec![] };
    assert_eq!(extract_opt_string(&rec, "name"), None);
    assert_eq!(extract_opt_int(&rec, "review_count"), None);
    assert_eq!(extract_opt_number(&rec, "rating"), None);
    assert_eq!(extract_bool(&rec, "found_in_ads"), false);
    assert_eq!(extract_opt_bool(&rec, "reachable"), None);
    assert!(extract_string_list(&rec, "emails").is_empty());
    assert!(extract_signals(&rec).is_none());
}

#[test]
fn typed_values_coerce_to_their_own_type_only() {
    let rec = sample();
    assert_eq!(extract_opt_string(&rec, "name"), Some("Acme".to_string()));
    assert_eq!(extract_opt_int(&rec, "review_count"), Some(12));
    assert_eq!(
        extract_opt_number(&rec, "rating"),
        Some(Dec { neg: false, mantissa: 45, scale: 1 })
    );
    assert_eq!(extract_bool(&rec, "found_in_ads"), true);
    assert_eq!(extract_string_list(&rec, "emails"), vec!["a@x.com".to_string()]);
}

#[test]
fn mismatched_types_coerce_like_absence() {
    let rec = sample();
    assert_eq!(extract_opt_string(&rec, "review_count"), None);
    assert_eq!(extract_opt_int(&rec, "name"), None);
    assert_eq!(extract_bool(&rec, "name"), false);
    assert_eq!(extract_opt_bool(&rec, "review_count"), None);
    assert!(extract_string_list(&rec, "name").is_empty());
    assert_eq!(extract_opt_string(&rec, "phone"), None);
}

#[test]
fn integers_coerce_to_numbers() {
    let rec = sample();
    assert_eq!(
        extract_opt_number(&rec, "review_count"),
        Some(Dec { neg: false, mantissa: 12, scale: 0 })
    );
}

#[test]
fn first_occurrence_of_a_key_wins() {
    let rec = sample();
    assert_eq!(extract_opt_string(&rec, "name"), Some("Acme".to_string()));
}

#[test]
fn parse_prospect_fills_defaults() {
    let p = parse_prospect(&LooseRecord { entries: vec![] });
    assert_eq!(p.name, None);
    assert_eq!(p.found_in_ads, false);
    assert_eq!(p.fit_score, None);
    assert!(p.emails.is_empty());
    assert!(p.signals.is_none());
}

#[test]
fn parse_prospect_keeps_signal_unit_presence() {
    let rec = LooseRecord {
        entries: vec![entry(
            "signals",
            FieldValue::Nested(LooseRecord {
                entries: vec![entry("reachable", FieldValue::Boolean(true))],
            }),
        )],
    };
    let p = parse_prospect(&rec);
    let signals = p.signals.unwrap();
    assert_eq!(signals.reachable, Some(true));
    assert_eq!(signals.cms, None);
    assert!(signals.social_links.is_empty());
}

#[test]
fn dec_parse_accepts_plain_decimal_text() {
    assert_eq!(dec_parse("83"), Some(Dec { neg: false, mantissa: 83, scale: 0 }));
    assert_eq!(dec_parse("83.46"), Some(Dec { neg: false, mantissa: 8346, scale: 2 }));
    assert_eq!(dec_parse("-0.5"), Some(Dec { neg: true, mantissa: 5, scale: 1 }));
    assert_eq!(dec_parse("-0"), Some(Dec { neg: true, mantissa: 0, scale: 0 }));
    assert_eq!(dec_parse("0.050"), Some(Dec { neg: false, mantissa: 50, scale: 3 }));
}

#[test]
fn dec_parse_rejects_other_shapes() {
    assert_eq!(dec_parse(""), None);
    assert_eq!(dec_parse("-"), None);
    assert_eq!(dec_parse("."), None);
    assert_eq!(dec_parse("1."), None);
    assert_eq!(dec_parse(".5"), None);
    assert_eq!(dec_parse("1e5"), None);
    assert_eq!(dec_parse("12.3.4"), None);
    assert_eq!(dec_parse("+3"), None);
    assert_eq!(dec_parse("NaN"), None);
    assert_eq!(dec_parse("inf"), None);
    assert_eq!(dec_parse("1 2"), None);
}

#[test]
fn dec_parse_rejects_overflow_and_long_fractions() {
    // More digits than a 64-bit mantissa can hold.
    assert_eq!(dec_parse("184467440737095516160"), None);
    // Nineteen fractional digits.
    assert_eq!(dec_parse("0.1234567890123456789"), None);
    // Eighteen fractional digits are fine.
    assert!(dec_parse("0.123456789012345678").is_some());
    assert_eq!(dec_parse("18446744073709551615"), Some(Dec { neg: false, mantissa: u64::MAX, scale: 0 }));
}

#[test]
fn number_text_helpers_render_decimal() {
    assert_eq!(leadswarm_native::numtext::u64_text(0), "0");
    assert_eq!(leadswarm_native::numtext::u64_text(90210), "90210");
    assert_eq!(leadswarm_native::numtext::i64_text(-42), "-42");
    assert_eq!(leadswarm_native::numtext::i64_text(i64::MIN), "-9223372036854775808");
    assert_eq!(leadswarm_native::numtext::hex16_text(255), "00000000000000ff");
}

#[test]
fn dec_parse_rejects_non_ascii_digits() {
    assert_eq!(dec_parse("１２"), None);
    assert_eq!(dec_parse("3.５"), None);
}
