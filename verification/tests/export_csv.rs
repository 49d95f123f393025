use leadswarm_native::{serialize_prospects_csv, Dec, FieldValue, LooseRecord};

fn entry(key: &str, value: FieldValue) -> (String, FieldValue) {
    (key.to_string(), value)
}

fn text(s: &str) -> FieldValue {
    FieldValue::Text(s.to_string())
}

fn num(s: &str) -> FieldValue {
    FieldValue::Number(leadswarm_native::dec_parse(s).unwrap())
}

const HEADER: &str = "name,website,phone,address,emails,rating,review_count,fit_score,opportunity_score,priority_score,opportunity_notes,found_in_ads,found_in_maps,found_in_organic,cms,has_google_analytics,has_booking_system\n";

fn acme() -> LooseRecord {
    LooseRecord {
        entries: vec![
            entry("name", text("Acme Cafe")),
            entry("found_in_ads", FieldValue::Boolean(true)),
            entry("rating", num("4.5")),
            entry("review_count", FieldValue::Integer(12)),
            entry("fit_score", FieldValue::Integer(80)),
            entry("priority_score", num("91.27")),
            entry(
                "signals",
                FieldValue::Nested(LooseRecord {
                    entries: vec![
                        entry("cms", text("Wordpress")),
                        entry("has_google_analytics", FieldValue::Boolean(true)),
                    ],
                }),
            ),
        ],
    }
}

fn beta() -> LooseRecord {
    LooseRecord {
        entries: vec![entry("name", text("Beta Shop"))],
    }
}

#[test]
fn empty_list_yields_header_only() {
    let out = serialize_prospects_csv(&vec![]);
    assert_eq!(out, HEADER);
}

#[test]
fn end_to_end_two_records() {
    let out = serialize_prospects_csv(&vec![acme(), beta()]);
    let expected = format!(
        "{}{}{}",
        HEADER,
        "Acme Cafe,,,,,4.5,12,80,0,91.3,,Yes,No,No,Wordpress,Yes,No\n",
        "Beta Shop,,,,,,,0,0,0.0,,No,No,No,,No,No\n"
    );
    assert_eq!(out, expected);
}

#[test]
fn line_count_is_records_plus_header() {
    let out = serialize_prospects_csv(&vec![acme(), beta(), beta()]);
    assert_eq!(out.lines().count(), 4);
}

#[test]
fn every_row_has_17_columns() {
    let out = serialize_prospects_csv(&vec![acme(), beta()]);
    let mut reader = csv::ReaderBuilder::new()
        .has_headers(false)
        .from_reader(out.as_bytes());
    let mut rows = 0;
    for record in reader.records() {
        let record = record.unwrap();
        assert_eq!(record.len(), 17);
        rows += 1;
    }
    assert_eq!(rows, 3);
}

#[test]
fn boolean_cells_are_yes_or_no() {
    let out = serialize_prospects_csv(&vec![acme(), beta()]);
    let mut reader = csv::ReaderBuilder::new().from_reader(out.as_bytes());
    for record in reader.records() {
        let record = record.unwrap();
        for idx in [11usize, 12, 13, 15, 16] {
            let cell = record.get(idx).unwrap();
            assert!(cell == "Yes" || cell == "No", "cell {idx} was {cell:?}");
        }
    }
}

#[test]
fn priority_has_one_fractional_digit() {
    let int_input = LooseRecord {
        entries: vec![entry("priority_score", FieldValue::Integer(83))],
    };
    let frac_input = LooseRecord {
        entries: vec![entry("priority_score", num("83.46"))],
    };
    let out = serialize_prospects_csv(&vec![int_input, frac_input]);
    let lines: Vec<&str> = out.lines().collect();
    assert_eq!(lines[1], ",,,,,,,0,0,83.0,,No,No,No,,No,No");
    assert_eq!(lines[2], ",,,,,,,0,0,83.5,,No,No,No,,No,No");
}

#[test]
fn emails_join_with_semicolon_space() {
    let rec = LooseRecord {
        entries: vec![entry(
            "emails",
            FieldValue::TextList(vec!["a@x.com".to_string(), "b@y.com".to_string()]),
        )],
    };
    let out = serialize_prospects_csv(&vec![rec]);
    let lines: Vec<&str> = out.lines().collect();
    assert_eq!(lines[1], ",,,,a@x.com; b@y.com,,,0,0,0.0,,No,No,No,,No,No");
    let empty = LooseRecord {
        entries: vec![entry("emails", FieldValue::TextList(vec![]))],
    };
    let out = serialize_prospects_csv(&vec![empty]);
    let lines: Vec<&str> = out.lines().collect();
    assert_eq!(lines[1], ",,,,,,,0,0,0.0,,No,No,No,,No,No");
}

#[test]
fn no_signals_means_empty_cms_and_no_flags() {
    let out = serialize_prospects_csv(&vec![beta()]);
    let lines: Vec<&str> = out.lines().collect();
    let cells: Vec<&str> = lines[1].split(',').collect();
    assert_eq!(cells[14], "");
    assert_eq!(cells[15], "No");
    assert_eq!(cells[16], "No");
}

#[test]
fn signals_without_cms_leaves_cms_empty() {
    let rec = LooseRecord {
        entries: vec![entry(
            "signals",
            FieldValue::Nested(LooseRecord {
                entries: vec![entry("has_booking_system", FieldValue::Boolean(true))],
            }),
        )],
    };
    let out = serialize_prospects_csv(&vec![rec]);
    let lines: Vec<&str> = out.lines().collect();
    let cells: Vec<&str> = lines[1].split(',').collect();
    assert_eq!(cells[14], "");
    assert_eq!(cells[16], "Yes");
}

#[test]
fn fields_with_delimiters_are_quoted_like_the_csv_crate() {
    let rec = LooseRecord {
        entries: vec![
            entry("name", text("Joe's \"Best\" Pizza, Inc.")),
            entry("opportunity_notes", text("line one\nline two")),
        ],
    };
    let out = serialize_prospects_csv(&vec![rec]);

    let mut writer = csv::WriterBuilder::new().from_writer(Vec::new());
    writer
        .write_record([
            "name",
            "website",
            "phone",
            "address",
            "emails",
            "rating",
            "review_count",
            "fit_score",
            "opportunity_score",
            "priority_score",
            "opportunity_notes",
            "found_in_ads",
            "found_in_maps",
            "found_in_organic",
            "cms",
            "has_google_analytics",
            "has_booking_system",
        ])
        .unwrap();
    writer
        .write_record([
            "Joe's \"Best\" Pizza, Inc.",
            "",
            "",
            "",
            "",
            "",
            "",
            "0",
            "0",
            "0.0",
            "line one\nline two",
            "No",
            "No",
            "No",
            "",
            "No",
            "No",
        ])
        .unwrap();
    let expected = String::from_utf8(writer.into_inner().unwrap()).unwrap();
    assert_eq!(out, expected);
}

#[test]
fn csv_reencoding_is_byte_identical() {
    let records = vec![acme(), beta()];
    let first = serialize_prospects_csv(&records);
    let second = serialize_prospects_csv(&records);
    assert_eq!(first, second);
}

#[test]
fn rating_renders_plain_and_integer_rating_coerces() {
    let rec = LooseRecord {
        entries: vec![entry("rating", FieldValue::Integer(4))],
    };
    let out = serialize_prospects_csv(&vec![rec]);
    let lines: Vec<&str> = out.lines().collect();
    let cells: Vec<&str> = lines[1].split(',').collect();
    assert_eq!(cells[5], "4");
}

#[test]
fn negative_scores_render_with_sign() {
    let rec = LooseRecord {
        entries: vec![
            entry("fit_score", FieldValue::Integer(-5)),
            entry("priority_score", num("-0.04")),
        ],
    };
    let out = serialize_prospects_csv(&vec![rec]);
    let lines: Vec<&str> = out.lines().collect();
    let cells: Vec<&str> = lines[1].split(',').collect();
    assert_eq!(cells[7], "-5");
    assert_eq!(cells[9], "-0.0");
}

#[test]
fn mistyped_fields_fall_back_to_defaults() {
    let rec = LooseRecord {
        entries: vec![
            entry("name", FieldValue::Integer(7)),
            entry("found_in_ads", text("yes")),
            entry("fit_score", text("80")),
            entry("rating", FieldValue::Null),
        ],
    };
    let out = serialize_prospects_csv(&vec![rec]);
    let lines: Vec<&str> = out.lines().collect();
    assert_eq!(lines[1], ",,,,,,,0,0,0.0,,No,No,No,,No,No");
}

#[test]
fn verified_dec_round_trip_matches_float_formatting() {
    for v in [83.0f64, 83.46, 91.27, 4.5, 0.0, -12.75, 100.0, 0.05] {
        let d: Dec = leadswarm_native::dec_parse(&v.to_string()).unwrap();
        let rec = LooseRecord {
            entries: vec![entry("priority_score", FieldValue::Number(d))],
        };
        let out = serialize_prospects_csv(&vec![rec]);
        let lines: Vec<&str> = out.lines().collect();
        let cells: Vec<&str> = lines[1].split(',').collect();
        assert_eq!(cells[9], format!("{:.1}", v));
    }
}

#[test]
fn non_ascii_text_passes_through_and_quotes_correctly() {
    let rec = LooseRecord {
        entries: vec![entry("name", text("Café München, Ltd"))],
    };
    let out = serialize_prospects_csv(&vec![rec]);
    let lines: Vec<&str> = out.lines().collect();
    assert!(lines[1].starts_with("\"Café München, Ltd\","));

    let plain = LooseRecord {
        entries: vec![entry("name", text("Café München"))],
    };
    let out = serialize_prospects_csv(&vec![plain]);
    let lines: Vec<&str> = out.lines().collect();
    assert!(lines[1].starts_with("Café München,"));
}
