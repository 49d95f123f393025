use leadswarm_native::{serialize_prospects_json, FieldValue, LooseRecord};
use serde_json::Value;

fn entry(key: &str, value: FieldValue) -> (String, FieldValue) {
    (key.to_string(), value)
}

fn text(s: &str) -> FieldValue {
    FieldValue::Text(s.to_string())
}

fn num(s: &str) -> FieldValue {
    FieldValue::Number(leadswarm_native::dec_parse(s).unwrap())
}

fn acme() -> LooseRecord {
    LooseRecord {
        entries: vec![
            entry("name", text("Acme Cafe")),
            entry("found_in_ads", FieldValue::Boolean(true)),
            entry("rating", num("4.5")),
            entry("review_count", FieldValue::Integer(12)),
            entry("fit_score", FieldValue::Integer(80)),
            entry("priority_score", num("91.27")),
            entry(
                "signals",
                FieldValue::Nested(LooseRecord {
                    entries: vec![
                        entry("cms", text("Wordpress")),
                        entry("has_google_analytics", FieldValue::Boolean(true)),
                    ],
                }),
            ),
        ],
    }
}

fn beta() -> LooseRecord {
    LooseRecord {
        entries: vec![entry("name", text("Beta Shop"))],
    }
}

#[test]
fn empty_list_yields_empty_array() {
    assert_eq!(serialize_prospects_json(&vec![], false), "[]");
    assert_eq!(serialize_prospects_json(&vec![], true), "[]");
}

#[test]
fn output_parses_to_array_of_n_objects() {
    let out = serialize_prospects_json(&vec![acme(), beta(), beta()], false);
    let value: Value = serde_json::from_str(&out).unwrap();
    let array = value.as_array().unwrap();
    assert_eq!(array.len(), 3);
    for item in array {
        assert!(item.is_object());
    }
}

#[test]
fn pretty_only_changes_whitespace() {
    let records = vec![acme(), beta()];
    let compact = serialize_prospects_json(&records, false);
    let pretty = serialize_prospects_json(&records, true);
    assert_ne!(compact, pretty);
    let a: Value = serde_json::from_str(&compact).unwrap();
    let b: Value = serde_json::from_str(&pretty).unwrap();
    assert_eq!(a, b);
}

#[test]
fn end_to_end_signals_presence() {
    let out = serialize_prospects_json(&vec![acme(), beta()], false);
    let value: Value = serde_json::from_str(&out).unwrap();
    let array = value.as_array().unwrap();

    let first = array[0].as_object().unwrap();
    let signals = first.get("signals").unwrap().as_object().unwrap();
    assert_eq!(signals.get("cms").unwrap(), &Value::String("Wordpress".to_string()));
    let tracking = signals.get("tracking").unwrap().as_object().unwrap();
    assert_eq!(tracking.get("google_analytics").unwrap(), &Value::Bool(true));
    assert_eq!(tracking.get("facebook_pixel").unwrap(), &Value::Null);

    let second = array[1].as_object().unwrap();
    assert!(second.get("signals").is_none());
    assert_eq!(second.get("name").unwrap(), &Value::String("Beta Shop".to_string()));
}

#[test]
fn exact_compact_text_for_minimal_record() {
    let out = serialize_prospects_json(&vec![beta()], false);
    let mut expected = String::new();
    expected.push_str("[{\"name\":\"Beta Shop\",\"website\":null,\"domain\":null,\"phone\":null,");
    expected.push_str("\"address\":null,\"emails\":[],\"serp_presence\":{\"ads\":{\"found\":false,");
    expected.push_str("\"position\":null},\"maps\":{\"found\":false,\"position\":null},\"organic\":");
    expected.push_str("{\"found\":false,\"position\":null}},\"google_business\":{\"rating\":null,");
    expected.push_str("\"review_count\":null,\"category\":null},\"scores\":{\"fit\":0,\"opportunity\":0,");
    expected.push_str("\"priority\":0.0},\"opportunity_notes\":null,\"source\":null,\"scraped_at\":null}]");
    assert_eq!(out, expected);
}

#[test]
fn priority_rounds_to_two_decimals() {
    let rec = LooseRecord {
        entries: vec![entry("priority_score", num("83.456"))],
    };
    let out = serialize_prospects_json(&vec![rec], false);
    let value: Value = serde_json::from_str(&out).unwrap();
    let scores = value[0].get("scores").unwrap();
    assert_eq!(scores.get("priority").unwrap().as_f64().unwrap(), 83.46);
    assert_eq!(scores.get("fit").unwrap().as_i64().unwrap(), 0);
}

#[test]
fn rating_passes_through_unrounded() {
    let rec = LooseRecord {
        entries: vec![entry("rating", num("4.5")), entry("category", text("cafe"))],
    };
    let out = serialize_prospects_json(&vec![rec], false);
    let value: Value = serde_json::from_str(&out).unwrap();
    let gb = value[0].get("google_business").unwrap();
    assert_eq!(gb.get("rating").unwrap().as_f64().unwrap(), 4.5);
    assert_eq!(gb.get("category").unwrap(), &Value::String("cafe".to_string()));
}

#[test]
fn emails_render_as_array_in_order() {
    let rec = LooseRecord {
        entries: vec![entry(
            "emails",
            FieldValue::TextList(vec!["a@x.com".to_string(), "b@y.com".to_string()]),
        )],
    };
    let out = serialize_prospects_json(&vec![rec], false);
    let value: Value = serde_json::from_str(&out).unwrap();
    let emails = value[0].get("emails").unwrap().as_array().unwrap();
    assert_eq!(emails.len(), 2);
    assert_eq!(emails[0], Value::String("a@x.com".to_string()));
    assert_eq!(emails[1], Value::String("b@y.com".to_string()));
}

#[test]
fn serp_positions_render_as_numbers_or_null() {
    let rec = LooseRecord {
        entries: vec![
            entry("found_in_maps", FieldValue::Boolean(true)),
            entry("maps_position", FieldValue::Integer(3)),
        ],
    };
    let out = serialize_prospects_json(&vec![rec], false);
    let value: Value = serde_json::from_str(&out).unwrap();
    let serp = value[0].get("serp_presence").unwrap();
    assert_eq!(serp.get("maps").unwrap().get("found").unwrap(), &Value::Bool(true));
    assert_eq!(serp.get("maps").unwrap().get("position").unwrap().as_i64().unwrap(), 3);
    assert_eq!(serp.get("ads").unwrap().get("position").unwrap(), &Value::Null);
}

#[test]
fn string_escapes_match_the_json_standard() {
    let rec = LooseRecord {
        entries: vec![entry("name", text("He said \"hi\"\\\n\tdone\u{1}"))],
    };
    let out = serialize_prospects_json(&vec![rec], false);
    let value: Value = serde_json::from_str(&out).unwrap();
    assert_eq!(
        value[0].get("name").unwrap(),
        &Value::String("He said \"hi\"\\\n\tdone\u{1}".to_string())
    );
    assert!(out.contains("\\\"hi\\\""));
    assert!(out.contains("\\n"));
    assert!(out.contains("\\t"));
    assert!(out.contains("\\u0001"));
}

#[test]
fn pretty_uses_two_space_indentation() {
    let out = serialize_prospects_json(&vec![beta()], true);
    assert!(out.starts_with("[\n  {\n    \"name\": \"Beta Shop\",\n"));
    assert!(out.ends_with("\n  }\n]"));
}

#[test]
fn json_reencoding_is_byte_identical() {
    let records = vec![acme(), beta()];
    assert_eq!(
        serialize_prospects_json(&records, true),
        serialize_prospects_json(&records, true)
    );
    assert_eq!(
        serialize_prospects_json(&records, false),
        serialize_prospects_json(&records, false)
    );
}

#[test]
fn signals_sub_fields_default_to_null() {
    let rec = LooseRecord {
        entries: vec![entry(
            "signals",
            FieldValue::Nested(LooseRecord {
                entries: vec![entry("load_time_ms", FieldValue::Integer(420))],
            }),
        )],
    };
    let out = serialize_prospects_json(&vec![rec], false);
    let value: Value = serde_json::from_str(&out).unwrap();
    let signals = value[0].get("signals").unwrap().as_object().unwrap();
    assert_eq!(signals.get("cms").unwrap(), &Value::Null);
    assert_eq!(signals.get("reachable").unwrap(), &Value::Null);
    assert_eq!(signals.get("load_time_ms").unwrap().as_i64().unwrap(), 420);
    assert_eq!(signals.get("social_links").unwrap().as_array().unwrap().len(), 0);
}

#[test]
fn non_ascii_text_survives_the_json_round_trip() {
    let rec = LooseRecord {
        entries: vec![entry("name", text("Café 北京 – ☕"))],
    };
    let out = serialize_prospects_json(&vec![rec], false);
    let value: Value = serde_json::from_str(&out).unwrap();
    assert_eq!(
        value[0].get("name").unwrap(),
        &Value::String("Café 北京 – ☕".to_string())
    );
}
