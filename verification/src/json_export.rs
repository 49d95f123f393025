//! The JSON encoder: a single array of nested objects, one per prospect.
//!
//! Keys are written in the documented schema order.  Absent scalars
//! become explicit `null`s, except the `signals` key, which is present
//! in the object only when the record's signals sub-record is present.
//! The `pretty` flag switches two-space indentation on and changes
//! nothing else.

use vstd::prelude::*;
use crate::decimal::{Dec, spec_dec_json_text, spec_round2, dec_json_text, dec_round2};
use crate::numtext::{spec_i64_text, spec_hex_digit_char, i64_text, hex_digit_str};
use crate::record::{
    LooseRecord, Prospect, ProspectV, Signals, SignalsV, spec_prospect_of, parse_prospect,
};
use crate::text::{spec_join, join_strings, push_char};

verus! {

/// How one character of a JSON string body is written: quotes and
/// backslashes escaped, control characters as `\b`, `\t`, `\n`, `\f`,
/// `\r` or `\u00..` with lower-case hex digits.
pub open spec fn spec_json_chunk(c: char) -> Seq<char> {
    if c == '"' {
        seq!['\\', '"']
    } else if c == '\\' {
        seq!['\\', '\\']
    } else if c == '\u{8}' {
        seq!['\\', 'b']
    } else if c == '\t' {
        seq!['\\', 't']
    } else if c == '\n' {
        seq!['\\', 'n']
    } else if c == '\u{c}' {
        seq!['\\', 'f']
    } else if c == '\r' {
        seq!['\\', 'r']
    } else if (c as int) < 32 {
        seq!['\\', 'u', '0', '0', spec_hex_digit_char(c as int / 16), spec_hex_digit_char(
            c as int % 16,
        )]
    } else {
        seq![c]
    }
}

/// A string body with every character escaped as needed.
pub open spec fn spec_json_escaped(s: Seq<char>) -> Seq<char>
    decreases s.len(),
{
    if s.len() == 0 {
        Seq::empty()
    } else {
        spec_json_chunk(s[0]) + spec_json_escaped(s.skip(1))
    }
}

proof fn lemma_json_escaped_snoc(s: Seq<char>, c: char)
    ensures
        spec_json_escaped(s.push(c)) == spec_json_escaped(s) + spec_json_chunk(c),
    decreases s.len(),
{
    if s.len() == 0 {
        assert(s.push(c) =~= seq![c]);
        assert(s.push(c)[0] == c);
        assert(s.push(c).skip(1) =~= Seq::<char>::empty());
        assert(spec_json_escaped(Seq::<char>::empty()) =~= Seq::<char>::empty());
        assert(spec_json_escaped(s.push(c)) =~= spec_json_chunk(c));
        assert(spec_json_escaped(s) + spec_json_chunk(c) =~= spec_json_chunk(c));
    } else {
        assert(s.push(c)[0] == s[0]);
        assert(s.push(c).skip(1) =~= s.skip(1).push(c));
        lemma_json_escaped_snoc(s.skip(1), c);
        assert(spec_json_chunk(s[0]) + (spec_json_escaped(s.skip(1)) + spec_json_chunk(c)) =~= (
        spec_json_chunk(s[0]) + spec_json_escaped(s.skip(1))) + spec_json_chunk(c));
    }
}

/// A quoted, escaped JSON string.
pub open spec fn spec_json_string(s: Seq<char>) -> Seq<char> {
    seq!['"'] + spec_json_escaped(s) + seq!['"']
}

/// Encode one JSON string, quotes included.
pub fn json_string(s: &str) -> (r: String)
    ensures
        r@ == spec_json_string(s@),
{
    let n = s.unicode_len();
    let mut out = String::new();
    push_char(&mut out, '"');
    let mut i: usize = 0;
    while i < n
        invariant
            n == s@.len(),
            i <= n,
            out@ == seq!['"'] + spec_json_escaped(s@.take(i as int)),
        decreases n - i,
    {
        let c = s.get_char(i);
        if c == '"' {
            push_char(&mut out, '\\');
            push_char(&mut out, '"');
        } else if c == '\\' {
            push_char(&mut out, '\\');
            push_char(&mut out, '\\');
        } else if c == '\u{8}' {
            push_char(&mut out, '\\');
            push_char(&mut out, 'b');
        } else if c == '\t' {
            push_char(&mut out, '\\');
            push_char(&mut out, 't');
        } else if c == '\n' {
            push_char(&mut out, '\\');
            push_char(&mut out, 'n');
        } else if c == '\u{c}' {
            push_char(&mut out, '\\');
            push_char(&mut out, 'f');
        } else if c == '\r' {
            push_char(&mut out, '\\');
            push_char(&mut out, 'r');
        } else if (c as u32) < 32 {
            push_char(&mut out, '\\');
            push_char(&mut out, 'u');
            push_char(&mut out, '0');
            push_char(&mut out, '0');
            let code: u32 = c as u32;
            out.append(hex_digit_str((code / 16) as u64));
            out.append(hex_digit_str((code % 16) as u64));
        } else {
            push_char(&mut out, c);
        }
        proof {
            assert(s@.take(i as int + 1) =~= s@.take(i as int).push(s@[i as int]));
            lemma_json_escaped_snoc(s@.take(i as int), s@[i as int]);
            assert(out@ =~= seq!['"'] + spec_json_escaped(s@.take(i as int + 1)));
        }
        i += 1;
    }
    push_char(&mut out, '"');
    proof {
        assert(s@.take(n as int) =~= s@);
        assert(out@ =~= spec_json_string(s@));
    }
    out
}

/// The indentation for a nesting depth: two spaces per level.
pub open spec fn spec_indent(depth: int) -> Seq<char>
    decreases depth,
{
    if depth <= 0 {
        Seq::empty()
    } else {
        spec_indent(depth - 1) + "  "@
    }
}

/// The break before an element at `depth`: a newline and indentation
/// when pretty, nothing when compact.
pub open spec fn spec_nl(pretty: bool, depth: int) -> Seq<char> {
    if pretty {
        "\n"@ + spec_indent(depth)
    } else {
        Seq::empty()
    }
}

fn nl_string(pretty: bool, depth: usize) -> (r: String)
    ensures
        r@ == spec_nl(pretty, depth as int),
{
    if !pretty {
        return String::new();
    }
    let mut out = "\n".to_owned();
    let mut j: usize = 0;
    while j < depth
        invariant
            j <= depth,
            out@ == "\n"@ + spec_indent(j as int),
        decreases depth - j,
    {
        out.append("  ");
        j += 1;
    }
    out
}

/// The key/value separator: `": "` when pretty, `":"` when compact.
pub open spec fn spec_colon(pretty: bool) -> Seq<char> {
    if pretty {
        ": "@
    } else {
        ":"@
    }
}

fn colon_str(pretty: bool) -> (r: &'static str)
    ensures
        r@ == spec_colon(pretty),
{
    if pretty {
        ": "
    } else {
        ":"
    }
}

/// A JSON object over already-rendered values, keys in given order.
/// Entry values must have been rendered at `depth + 1`.
pub open spec fn spec_json_object(
    entries: Seq<(Seq<char>, Seq<char>)>,
    pretty: bool,
    depth: int,
) -> Seq<char> {
    if entries.len() == 0 {
        "{}"@
    } else {
        seq!['{'] + spec_nl(pretty, depth + 1) + spec_join(
            entries.map(|i: int, e: (Seq<char>, Seq<char>)| spec_json_string(e.0) + spec_colon(pretty) + e.1),
            seq![','] + spec_nl(pretty, depth + 1),
        ) + spec_nl(pretty, depth) + seq!['}']
    }
}

/// A JSON array over already-rendered elements.
pub open spec fn spec_json_array(items: Seq<Seq<char>>, pretty: bool, depth: int) -> Seq<char> {
    if items.len() == 0 {
        "[]"@
    } else {
        seq!['['] + spec_nl(pretty, depth + 1) + spec_join(items, seq![','] + spec_nl(pretty, depth + 1))
            + spec_nl(pretty, depth) + seq![']']
    }
}

/// The view of rendered key/value pairs.
pub open spec fn pairs_view(s: Seq<(String, String)>) -> Seq<(Seq<char>, Seq<char>)> {
    s.map(|i: int, e: (String, String)| (e.0@, e.1@))
}

fn comma_nl_string(pretty: bool, depth: usize) -> (r: String)
    ensures
        r@ == seq![','] + spec_nl(pretty, depth as int),
{
    let mut out = String::new();
    push_char(&mut out, ',');
    out.append(nl_string(pretty, depth).as_str());
    proof {
        assert(out@ =~= seq![','] + spec_nl(pretty, depth as int));
    }
    out
}

fn json_object(entries: &Vec<(String, String)>, pretty: bool, depth: usize) -> (r: String)
    requires
        entries.len() >= 1,
        depth <= 8,
    ensures
        r@ == spec_json_object(pairs_view(entries@), pretty, depth as int),
{
    let mut parts: Vec<String> = Vec::new();
    let mut i: usize = 0;
    while i < entries.len()
        invariant
            i <= entries.len(),
            parts@.len() == i,
            forall|k: int|
                0 <= k < i ==> parts@[k]@ == spec_json_string(entries@[k].0@) + spec_colon(pretty)
                    + entries@[k].1@,
        decreases entries.len() - i,
    {
        let e = &entries[i];
        let mut part = json_string(e.0.as_str());
        part.append(colon_str(pretty));
        part.append(e.1.as_str());
        parts.push(part);
        i += 1;
    }
    let sep = comma_nl_string(pretty, depth + 1);
    let joined = join_strings(&parts, sep.as_str());
    proof {
        assert(parts.deep_view() =~= pairs_view(entries@).map(
            |i: int, e: (Seq<char>, Seq<char>)| spec_json_string(e.0) + spec_colon(pretty) + e.1,
        ));
    }
    let mut out = String::new();
    push_char(&mut out, '{');
    out.append(nl_string(pretty, depth + 1).as_str());
    out.append(joined.as_str());
    out.append(nl_string(pretty, depth).as_str());
    push_char(&mut out, '}');
    proof {
        assert(out@ =~= spec_json_object(pairs_view(entries@), pretty, depth as int));
    }
    out
}

fn json_array(items: &Vec<String>, pretty: bool, depth: usize) -> (r: String)
    requires
        depth <= 8,
    ensures
        r@ == spec_json_array(items.deep_view(), pretty, depth as int),
{
    if items.len() == 0 {
        let r = "[]".to_owned();
        proof {
            assert(items.deep_view().len() == 0);
        }
        r
    } else {
        let sep = comma_nl_string(pretty, depth + 1);
        let joined = join_strings(items, sep.as_str());
        let mut out = String::new();
        push_char(&mut out, '[');
        out.append(nl_string(pretty, depth + 1).as_str());
        out.append(joined.as_str());
        out.append(nl_string(pretty, depth).as_str());
        push_char(&mut out, ']');
        proof {
            assert(out@ =~= spec_json_array(items.deep_view(), pretty, depth as int));
        }
        out
    }
}

/// The literal `null`.
pub open spec fn spec_json_null() -> Seq<char> {
    "null"@
}

/// The literal `true` or `false`.
pub open spec fn spec_json_bool(b: bool) -> Seq<char> {
    if b {
        "true"@
    } else {
        "false"@
    }
}

/// A possibly absent string value: quoted text or `null`.
pub open spec fn spec_json_opt_str(o: Option<Seq<char>>) -> Seq<char> {
    match o {
        Some(s) => spec_json_string(s),
        None => spec_json_null(),
    }
}

/// A possibly absent integer value: digits or `null`.
pub open spec fn spec_json_opt_int(o: Option<i64>) -> Seq<char> {
    match o {
        Some(n) => spec_i64_text(n as int),
        None => spec_json_null(),
    }
}

/// A possibly absent boolean value: `true`/`false` or `null`.
pub open spec fn spec_json_opt_bool(o: Option<bool>) -> Seq<char> {
    match o {
        Some(b) => spec_json_bool(b),
        None => spec_json_null(),
    }
}

/// A possibly absent number value: decimal text or `null`.
pub open spec fn spec_json_opt_num(o: Option<Dec>) -> Seq<char> {
    match o {
        Some(d) => spec_dec_json_text(d),
        None => spec_json_null(),
    }
}

fn null_string() -> (r: String)
    ensures
        r@ == spec_json_null(),
{
    "null".to_owned()
}

fn json_opt_str(o: &Option<String>) -> (r: String)
    ensures
        r@ == spec_json_opt_str(o.deep_view()),
{
    match o {
        Some(s) => json_string(s.as_str()),
        None => null_string(),
    }
}

fn json_opt_i64(o: &Option<i64>) -> (r: String)
    ensures
        r@ == spec_json_opt_int(*o),
{
    match o {
        Some(n) => i64_text(*n),
        None => null_string(),
    }
}

fn json_opt_bool(o: &Option<bool>) -> (r: String)
    ensures
        r@ == spec_json_opt_bool(*o),
{
    match o {
        Some(b) => if *b {
            "true".to_owned()
        } else {
            "false".to_owned()
        },
        None => null_string(),
    }
}

fn json_opt_f64(o: &Option<Dec>) -> (r: String)
    requires
        match o {
            Some(d) => d.wf(),
            None => true,
        },
    ensures
        r@ == spec_json_opt_num(*o),
{
    match o {
        Some(d) => dec_json_text(*d),
        None => null_string(),
    }
}

/// One SERP presence object: a `found` flag and an optional position.
pub open spec fn spec_found_obj(found: bool, pos: Option<i64>, pretty: bool, depth: int) -> Seq<
    char,
> {
    spec_json_object(
        seq![("found"@, spec_json_bool(found)), ("position"@, spec_json_opt_int(pos))],
        pretty,
        depth,
    )
}

fn found_obj(found: bool, pos: &Option<i64>, pretty: bool, depth: usize) -> (r: String)
    requires
        depth <= 8,
    ensures
        r@ == spec_found_obj(found, *pos, pretty, depth as int),
{
    let mut entries: Vec<(String, String)> = Vec::new();
    let found_text = if found {
        "true".to_owned()
    } else {
        "false".to_owned()
    };
    entries.push(("found".to_owned(), found_text));
    entries.push(("position".to_owned(), json_opt_i64(pos)));
    proof {
        assert(pairs_view(entries@) =~= seq![
            ("found"@, spec_json_bool(found)),
            ("position"@, spec_json_opt_int(*pos)),
        ]);
    }
    json_object(&entries, pretty, depth)
}

/// The JSON text of the priority score: the stored value, or zero when
/// absent, rounded to at most two fractional digits.
pub open spec fn spec_priority_json(o: Option<Dec>) -> Seq<char> {
    spec_dec_json_text(
        spec_round2(
            match o {
                Some(d) => d,
                None => Dec { neg: false, mantissa: 0, scale: 0 },
            },
        ),
    )
}

/// One prospect as a JSON object at nesting depth 1.
pub open spec fn spec_prospect_json(p: ProspectV, pretty: bool) -> Seq<char> {
    spec_json_object(spec_prospect_entries(p, pretty), pretty, 1)
}

/// The key/value pairs of one prospect object, in schema order; the
/// `signals` pair is appended only when the sub-record is present.
pub open spec fn spec_prospect_entries(p: ProspectV, pretty: bool) -> Seq<
    (Seq<char>, Seq<char>),
> {
    let base = seq![
        ("name"@, spec_json_opt_str(p.name)),
        ("website"@, spec_json_opt_str(p.website)),
        ("domain"@, spec_json_opt_str(p.domain)),
        ("phone"@, spec_json_opt_str(p.phone)),
        ("address"@, spec_json_opt_str(p.address)),
        (
            "emails"@,
            spec_json_array(p.emails.map(|i: int, s: Seq<char>| spec_json_string(s)), pretty, 2),
        ),
        (
            "serp_presence"@,
            spec_json_object(
                seq![
                    ("ads"@, spec_found_obj(p.found_in_ads, p.ad_position, pretty, 3)),
                    ("maps"@, spec_found_obj(p.found_in_maps, p.maps_position, pretty, 3)),
                    ("organic"@, spec_found_obj(p.found_in_organic, p.organic_position, pretty, 3)),
                ],
                pretty,
                2,
            ),
        ),
        (
            "google_business"@,
            spec_json_object(
                seq![
                    ("rating"@, spec_json_opt_num(p.rating)),
                    ("review_count"@, spec_json_opt_int(p.review_count)),
                    ("category"@, spec_json_opt_str(p.category)),
                ],
                pretty,
                2,
            ),
        ),
        (
            "scores"@,
            spec_json_object(
                seq![
                    (
                        "fit"@,
                        spec_i64_text(
                            match p.fit_score {
                                Some(n) => n as int,
                                None => 0,
                            },
                        ),
                    ),
                    (
                        "opportunity"@,
                        spec_i64_text(
                            match p.opportunity_score {
                                Some(n) => n as int,
                                None => 0,
                            },
                        ),
                    ),
                    ("priority"@, spec_priority_json(p.priority_score)),
                ],
                pretty,
                2,
            ),
        ),
        ("opportunity_notes"@, spec_json_opt_str(p.opportunity_notes)),
        ("source"@, spec_json_opt_str(p.source)),
        ("scraped_at"@, spec_json_opt_str(p.scraped_at)),
    ];
    match p.signals {
        Some(s) => base.push(("signals"@, spec_signals_obj(s, pretty))),
        None => base,
    }
}

/// The signals sub-object at nesting depth 2.
pub open spec fn spec_signals_obj(s: SignalsV, pretty: bool) -> Seq<char> {
    spec_json_object(
        seq![
            ("reachable"@, spec_json_opt_bool(s.reachable)),
            ("cms"@, spec_json_opt_str(s.cms)),
            (
                "tracking"@,
                spec_json_object(
                    seq![
                        ("google_analytics"@, spec_json_opt_bool(s.has_google_analytics)),
                        ("facebook_pixel"@, spec_json_opt_bool(s.has_facebook_pixel)),
                        ("google_ads"@, spec_json_opt_bool(s.has_google_ads)),
                    ],
                    pretty,
                    3,
                ),
            ),
            ("has_booking_system"@, spec_json_opt_bool(s.has_booking_system)),
            ("load_time_ms"@, spec_json_opt_int(s.load_time_ms)),
            ("title"@, spec_json_opt_str(s.title)),
            ("meta_description"@, spec_json_opt_str(s.meta_description)),
            (
                "social_links"@,
                spec_json_array(
                    s.social_links.map(|i: int, t: Seq<char>| spec_json_string(t)),
                    pretty,
                    3,
                ),
            ),
        ],
        pretty,
        2,
    )
}

fn str_array(items: &Vec<String>, pretty: bool, depth: usize) -> (r: String)
    requires
        depth <= 8,
    ensures
        r@ == spec_json_array(
            items.deep_view().map(|i: int, s: Seq<char>| spec_json_string(s)),
            pretty,
            depth as int,
        ),
{
    let mut quoted: Vec<String> = Vec::new();
    let mut i: usize = 0;
    while i < items.len()
        invariant
            i <= items.len(),
            quoted@.len() == i,
            forall|k: int| 0 <= k < i ==> quoted@[k]@ == spec_json_string(items@[k]@),
        decreases items.len() - i,
    {
        quoted.push(json_string(items[i].as_str()));
        i += 1;
    }
    proof {
        assert(quoted.deep_view() =~= items.deep_view().map(
            |i: int, s: Seq<char>| spec_json_string(s),
        ));
    }
    json_array(&quoted, pretty, depth)
}

fn signals_obj(s: &Signals, pretty: bool) -> (r: String)
    ensures
        r@ == spec_signals_obj(s.deep_view(), pretty),
{
    let mut tracking: Vec<(String, String)> = Vec::new();
    tracking.push(("google_analytics".to_owned(), json_opt_bool(&s.has_google_analytics)));
    tracking.push(("facebook_pixel".to_owned(), json_opt_bool(&s.has_facebook_pixel)));
    tracking.push(("google_ads".to_owned(), json_opt_bool(&s.has_google_ads)));
    proof {
        assert(pairs_view(tracking@) =~= seq![
            ("google_analytics"@, spec_json_opt_bool(s.has_google_analytics)),
            ("facebook_pixel"@, spec_json_opt_bool(s.has_facebook_pixel)),
            ("google_ads"@, spec_json_opt_bool(s.has_google_ads)),
        ]);
    }
    let tracking_text = json_object(&tracking, pretty, 3);
    let mut entries: Vec<(String, String)> = Vec::new();
    entries.push(("reachable".to_owned(), json_opt_bool(&s.reachable)));
    entries.push(("cms".to_owned(), json_opt_str(&s.cms)));
    entries.push(("tracking".to_owned(), tracking_text));
    entries.push(("has_booking_system".to_owned(), json_opt_bool(&s.has_booking_system)));
    entries.push(("load_time_ms".to_owned(), json_opt_i64(&s.load_time_ms)));
    entries.push(("title".to_owned(), json_opt_str(&s.title)));
    entries.push(("meta_description".to_owned(), json_opt_str(&s.meta_description)));
    entries.push(("social_links".to_owned(), str_array(&s.social_links, pretty, 3)));
    proof {
        assert(pairs_view(entries@) =~= seq![
            ("reachable"@, spec_json_opt_bool(s.reachable)),
            ("cms"@, spec_json_opt_str(s.cms.deep_view())),
            (
                "tracking"@,
                spec_json_object(
                    seq![
                        ("google_analytics"@, spec_json_opt_bool(s.has_google_analytics)),
                        ("facebook_pixel"@, spec_json_opt_bool(s.has_facebook_pixel)),
                        ("google_ads"@, spec_json_opt_bool(s.has_google_ads)),
                    ],
                    pretty,
                    3,
                ),
            ),
            ("has_booking_system"@, spec_json_opt_bool(s.has_booking_system)),
            ("load_time_ms"@, spec_json_opt_int(s.load_time_ms)),
            ("title"@, spec_json_opt_str(s.title.deep_view())),
            ("meta_description"@, spec_json_opt_str(s.meta_description.deep_view())),
            (
                "social_links"@,
                spec_json_array(
                    s.social_links.deep_view().map(|i: int, t: Seq<char>| spec_json_string(t)),
                    pretty,
                    3,
                ),
            ),
        ]);
    }
    json_object(&entries, pretty, 2)
}

/// Encode one prospect as a JSON object.
#[verifier::rlimit(100)]
fn prospect_json(p: &Prospect, pretty: bool) -> (r: String)
    requires
        p.deep_view().wf(),
    ensures
        r@ == spec_prospect_json(p.deep_view(), pretty),
{
    let mut serp: Vec<(String, String)> = Vec::new();
    serp.push(("ads".to_owned(), found_obj(p.found_in_ads, &p.ad_position, pretty, 3)));
    serp.push(("maps".to_owned(), found_obj(p.found_in_maps, &p.maps_position, pretty, 3)));
    serp.push(
        ("organic".to_owned(), found_obj(p.found_in_organic, &p.organic_position, pretty, 3)),
    );
    proof {
        assert(pairs_view(serp@) =~= seq![
            ("ads"@, spec_found_obj(p.found_in_ads, p.ad_position, pretty, 3)),
            ("maps"@, spec_found_obj(p.found_in_maps, p.maps_position, pretty, 3)),
            ("organic"@, spec_found_obj(p.found_in_organic, p.organic_position, pretty, 3)),
        ]);
    }
    let serp_text = json_object(&serp, pretty, 2);

    let mut gb: Vec<(String, String)> = Vec::new();
    gb.push(("rating".to_owned(), json_opt_f64(&p.rating)));
    gb.push(("review_count".to_owned(), json_opt_i64(&p.review_count)));
    gb.push(("category".to_owned(), json_opt_str(&p.category)));
    proof {
        assert(pairs_view(gb@) =~= seq![
            ("rating"@, spec_json_opt_num(p.rating)),
            ("review_count"@, spec_json_opt_int(p.review_count)),
            ("category"@, spec_json_opt_str(p.category.deep_view())),
        ]);
    }
    let gb_text = json_object(&gb, pretty, 2);

    let mut scores: Vec<(String, String)> = Vec::new();
    let fit = match &p.fit_score {
        Some(n) => *n,
        None => 0,
    };
    let opportunity = match &p.opportunity_score {
        Some(n) => *n,
        None => 0,
    };
    let priority = match &p.priority_score {
        Some(d) => *d,
        None => Dec::zero(),
    };
    scores.push(("fit".to_owned(), i64_text(fit)));
    scores.push(("opportunity".to_owned(), i64_text(opportunity)));
    scores.push(("priority".to_owned(), dec_json_text(dec_round2(priority))));
    proof {
        assert(pairs_view(scores@) =~= seq![
            (
                "fit"@,
                spec_i64_text(
                    match p.fit_score {
                        Some(n) => n as int,
                        None => 0,
                    },
                ),
            ),
            (
                "opportunity"@,
                spec_i64_text(
                    match p.opportunity_score {
                        Some(n) => n as int,
                        None => 0,
                    },
                ),
            ),
            ("priority"@, spec_priority_json(p.priority_score)),
        ]);
    }
    let scores_text = json_object(&scores, pretty, 2);

    let mut entries: Vec<(String, String)> = Vec::new();
    entries.push(("name".to_owned(), json_opt_str(&p.name)));
    entries.push(("website".to_owned(), json_opt_str(&p.website)));
    entries.push(("domain".to_owned(), json_opt_str(&p.domain)));
    entries.push(("phone".to_owned(), json_opt_str(&p.phone)));
    entries.push(("address".to_owned(), json_opt_str(&p.address)));
    entries.push(("emails".to_owned(), str_array(&p.emails, pretty, 2)));
    entries.push(("serp_presence".to_owned(), serp_text));
    entries.push(("google_business".to_owned(), gb_text));
    entries.push(("scores".to_owned(), scores_text));
    entries.push(("opportunity_notes".to_owned(), json_opt_str(&p.opportunity_notes)));
    entries.push(("source".to_owned(), json_opt_str(&p.source)));
    entries.push(("scraped_at".to_owned(), json_opt_str(&p.scraped_at)));
    match &p.signals {
        Some(s) => {
            entries.push(("signals".to_owned(), signals_obj(s, pretty)));
        },
        None => {},
    }
    proof {
        assert(pairs_view(entries@) =~= spec_prospect_entries(p.deep_view(), pretty));
    }
    json_object(&entries, pretty, 1)
}

/// The whole export: a JSON array of prospect objects, input order.
pub open spec fn spec_json_export(ps: Seq<ProspectV>, pretty: bool) -> Seq<char> {
    spec_json_array(ps.map(|i: int, p: ProspectV| spec_prospect_json(p, pretty)), pretty, 0)
}

/// Encode parsed prospects as the JSON array.
pub fn encode_json(prospects: &Vec<Prospect>, pretty: bool) -> (r: String)
    requires
        forall|i: int|
            0 <= i < prospects.deep_view().len() ==> (#[trigger] prospects.deep_view()[i]).wf(),
    ensures
        r@ == spec_json_export(prospects.deep_view(), pretty),
{
    let ghost dv = prospects.deep_view();
    let mut texts: Vec<String> = Vec::new();
    let mut i: usize = 0;
    while i < prospects.len()
        invariant
            i <= prospects.len(),
            dv == prospects.deep_view(),
            prospects.deep_view().len() == prospects.len(),
            forall|k: int| 0 <= k < dv.len() ==> (#[trigger] dv[k]).wf(),
            texts@.len() == i,
            forall|k: int| 0 <= k < i ==> texts@[k]@ == spec_prospect_json(dv[k], pretty),
        decreases prospects.len() - i,
    {
        proof {
            assert(prospects@[i as int].deep_view() == dv[i as int]);
        }
        texts.push(prospect_json(&prospects[i], pretty));
        i += 1;
    }
    proof {
        assert(texts.deep_view() =~= dv.map(|i: int, p: ProspectV| spec_prospect_json(p, pretty)));
    }
    json_array(&texts, pretty, 0)
}

/// Read each loose record into a prospect, then encode the JSON array.
pub fn serialize_prospects_json(records: &Vec<LooseRecord>, pretty: bool) -> (r: String)
    ensures
        r@ == spec_json_export(
            records@.map(|i: int, rec: LooseRecord| spec_prospect_of(rec)),
            pretty,
        ),
{
    let ghost target = records@.map(|i: int, rec: LooseRecord| spec_prospect_of(rec));
    let mut prospects: Vec<Prospect> = Vec::new();
    let mut i: usize = 0;
    while i < records.len()
        invariant
            i <= records.len(),
            target == records@.map(|k: int, rec: LooseRecord| spec_prospect_of(rec)),
            prospects.deep_view() =~= target.take(i as int),
            forall|k: int|
                0 <= k < prospects.deep_view().len() ==> (#[trigger] prospects.deep_view()[k]).wf(),
        decreases records.len() - i,
    {
        let p = parse_prospect(&records[i]);
        prospects.push(p);
        proof {
            assert(target.take(i as int + 1) =~= target.take(i as int).push(target[i as int]));
            assert(prospects.deep_view() =~= target.take(i as int + 1));
        }
        i += 1;
    }
    proof {
        assert(target.take(records@.len() as int) =~= target);
        assert(prospects.deep_view() =~= target);
    }
    encode_json(&prospects, pretty)
}


/// An empty record list yields the two-character array `[]` in both
/// modes.
pub proof fn lemma_json_empty_export(pretty: bool)
    ensures
        spec_json_export(Seq::empty(), pretty) == "[]"@,
{
    assert(Seq::<ProspectV>::empty().map(
        |i: int, p: ProspectV| spec_prospect_json(p, pretty),
    ).len() == 0);
}

/// Encoding is a function of the records and the mode alone: any two
/// results for the same inputs are identical, in one process or
/// across two.
pub proof fn lemma_json_encoding_deterministic(
    ps: Seq<ProspectV>,
    pretty: bool,
    r1: Seq<char>,
    r2: Seq<char>,
)
    requires
        r1 == spec_json_export(ps, pretty),
        r2 == spec_json_export(ps, pretty),
    ensures
        r1 == r2,
{
}

} // verus!
