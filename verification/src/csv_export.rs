//! The CSV encoder: a fixed 17-column table, one row per prospect.
//!
//! A field is quoted exactly when it contains the delimiter, a quote
//! or a line break; embedded quotes are doubled.  Rows end with a
//! single line feed, rows follow input order, and an empty input list
//! yields the header line alone.

use vstd::prelude::*;
use crate::decimal::{Dec, spec_dec_display, spec_dec_fixed1, dec_display, dec_fixed1};
use crate::numtext::{spec_i64_text, i64_text};
use crate::record::{
    LooseRecord, Prospect, ProspectV, SignalsV, spec_prospect_of, parse_prospect,
};
use crate::text::{
    spec_join, join_strings, push_char, spec_line_clean, spec_count_char,
    lemma_clean_concat, lemma_join_clean, lemma_count_char_concat, lemma_count_char_absent,
};
use crate::decimal::{lemma_dec_display_clean, lemma_fixed1_shape};
use crate::numtext::{spec_is_digit, lemma_i64_text_clean};

verus! {

/// Whether a raw field must be quoted.
pub open spec fn spec_needs_quote(s: Seq<char>) -> bool {
    exists|i: int|
        0 <= i < s.len() && (s[i] == ',' || s[i] == '"' || s[i] == '\n' || s[i] == '\r')
}

/// How one character of a quoted field is written.
pub open spec fn spec_quoted_chunk(c: char) -> Seq<char> {
    if c == '"' {
        seq!['"', '"']
    } else {
        seq![c]
    }
}

/// A field body with every embedded quote doubled.
pub open spec fn spec_doubled(s: Seq<char>) -> Seq<char>
    decreases s.len(),
{
    if s.len() == 0 {
        Seq::empty()
    } else {
        spec_quoted_chunk(s[0]) + spec_doubled(s.skip(1))
    }
}

proof fn lemma_doubled_snoc(s: Seq<char>, c: char)
    ensures
        spec_doubled(s.push(c)) == spec_doubled(s) + spec_quoted_chunk(c),
    decreases s.len(),
{
    if s.len() == 0 {
        assert(s.push(c) =~= seq![c]);
        assert(s.push(c)[0] == c);
        assert(s.push(c).skip(1) =~= Seq::<char>::empty());
        assert(spec_doubled(Seq::<char>::empty()) =~= Seq::<char>::empty());
        assert(spec_doubled(s.push(c)) =~= spec_quoted_chunk(c));
        assert(spec_doubled(s) + spec_quoted_chunk(c) =~= spec_quoted_chunk(c));
    } else {
        assert(s.push(c)[0] == s[0]);
        assert(s.push(c).skip(1) =~= s.skip(1).push(c));
        lemma_doubled_snoc(s.skip(1), c);
        assert(spec_quoted_chunk(s[0]) + (spec_doubled(s.skip(1)) + spec_quoted_chunk(c)) =~= (
        spec_quoted_chunk(s[0]) + spec_doubled(s.skip(1))) + spec_quoted_chunk(c));
    }
}

/// The delimited-text encoding of one field.
pub open spec fn spec_csv_cell(s: Seq<char>) -> Seq<char> {
    if spec_needs_quote(s) {
        seq!['"'] + spec_doubled(s) + seq!['"']
    } else {
        s
    }
}

/// Encode one raw field, quoting it exactly when needed.
pub fn csv_cell(s: &str) -> (r: String)
    ensures
        r@ == spec_csv_cell(s@),
{
    let n = s.unicode_len();
    let mut needs = false;
    let mut i: usize = 0;
    while i < n
        invariant
            n == s@.len(),
            i <= n,
            needs == exists|j: int|
                0 <= j < i && (s@[j] == ',' || s@[j] == '"' || s@[j] == '\n' || s@[j] == '\r'),
        decreases n - i,
    {
        let c = s.get_char(i);
        if c == ',' || c == '"' || c == '\n' || c == '\r' {
            needs = true;
        }
        i += 1;
    }
    if !needs {
        proof {
            assert(!spec_needs_quote(s@));
        }
        s.to_owned()
    } else {
        proof {
            assert(spec_needs_quote(s@));
        }
        let mut out = String::new();
        push_char(&mut out, '"');
        let mut i: usize = 0;
        while i < n
            invariant
                n == s@.len(),
                i <= n,
                out@ == seq!['"'] + spec_doubled(s@.take(i as int)),
            decreases n - i,
        {
            let c = s.get_char(i);
            push_char(&mut out, c);
            if c == '"' {
                push_char(&mut out, '"');
            }
            proof {
                assert(s@.take(i as int + 1) =~= s@.take(i as int).push(s@[i as int]));
                lemma_doubled_snoc(s@.take(i as int), s@[i as int]);
                assert(out@ =~= seq!['"'] + spec_doubled(s@.take(i as int + 1)));
            }
            i += 1;
        }
        push_char(&mut out, '"');
        proof {
            assert(s@.take(n as int) =~= s@);
            assert(out@ =~= seq!['"'] + spec_doubled(s@) + seq!['"']);
        }
        out
    }
}

/// A possibly absent string, empty when absent.
pub open spec fn spec_or_empty(o: Option<Seq<char>>) -> Seq<char> {
    match o {
        Some(s) => s,
        None => Seq::empty(),
    }
}

/// The literal `Yes` or `No`.
pub open spec fn spec_yes_no(b: bool) -> Seq<char> {
    if b {
        "Yes"@
    } else {
        "No"@
    }
}

/// Render a boolean as the literal `Yes` or `No`.
pub fn yes_no(b: bool) -> (r: &'static str)
    ensures
        r@ == spec_yes_no(b),
{
    if b {
        "Yes"
    } else {
        "No"
    }
}

/// A possibly absent string field, rendered empty when absent.
pub fn str_or_empty(o: &Option<String>) -> (r: String)
    ensures
        r@ == spec_or_empty(o.deep_view()),
{
    match o {
        Some(s) => s.clone(),
        None => String::new(),
    }
}

/// A possibly absent number, plain decimal text or empty.
pub open spec fn spec_opt_dec_text(o: Option<Dec>) -> Seq<char> {
    match o {
        Some(d) => spec_dec_display(d),
        None => Seq::empty(),
    }
}

/// A possibly absent integer, decimal text or empty.
pub open spec fn spec_opt_int_text(o: Option<i64>) -> Seq<char> {
    match o {
        Some(n) => spec_i64_text(n as int),
        None => Seq::empty(),
    }
}

/// A possibly absent integer score, decimal text or the literal `0`.
pub open spec fn spec_int_text_or_zero(o: Option<i64>) -> Seq<char> {
    match o {
        Some(n) => spec_i64_text(n as int),
        None => seq!['0'],
    }
}

/// The priority score cell: one fractional digit, `0.0` when absent.
pub open spec fn spec_priority_fixed1(o: Option<Dec>) -> Seq<char> {
    match o {
        Some(d) => spec_dec_fixed1(d),
        None => seq!['0', '.', '0'],
    }
}

/// The `cms` cell: read from the signals sub-record when present.
pub open spec fn spec_cms_text(o: Option<SignalsV>) -> Seq<char> {
    match o {
        Some(s) => spec_or_empty(s.cms),
        None => Seq::empty(),
    }
}

/// A signals boolean, `false` when signals or the field is absent.
pub open spec fn spec_analytics_flag(o: Option<SignalsV>) -> bool {
    match o {
        Some(s) => match s.has_google_analytics {
            Some(b) => b,
            None => false,
        },
        None => false,
    }
}

/// A signals boolean, `false` when signals or the field is absent.
pub open spec fn spec_booking_flag(o: Option<SignalsV>) -> bool {
    match o {
        Some(s) => match s.has_booking_system {
            Some(b) => b,
            None => false,
        },
        None => false,
    }
}

/// The 17 raw cells of one row, in column order.
pub open spec fn spec_csv_cells(p: ProspectV) -> Seq<Seq<char>> {
    seq![
        spec_or_empty(p.name),
        spec_or_empty(p.website),
        spec_or_empty(p.phone),
        spec_or_empty(p.address),
        spec_join(p.emails, "; "@),
        spec_opt_dec_text(p.rating),
        spec_opt_int_text(p.review_count),
        spec_int_text_or_zero(p.fit_score),
        spec_int_text_or_zero(p.opportunity_score),
        spec_priority_fixed1(p.priority_score),
        spec_or_empty(p.opportunity_notes),
        spec_yes_no(p.found_in_ads),
        spec_yes_no(p.found_in_maps),
        spec_yes_no(p.found_in_organic),
        spec_cms_text(p.signals),
        spec_yes_no(spec_analytics_flag(p.signals)),
        spec_yes_no(spec_booking_flag(p.signals)),
    ]
}

/// One data row: the escaped cells joined by commas, then a line feed.
pub open spec fn spec_csv_row(p: ProspectV) -> Seq<char> {
    spec_join(spec_csv_cells(p).map(|i: int, c: Seq<char>| spec_csv_cell(c)), ","@) + "\n"@
}

/// The 17 column titles, in order.
pub open spec fn spec_csv_columns() -> Seq<Seq<char>> {
    seq![
        "name"@,
        "website"@,
        "phone"@,
        "address"@,
        "emails"@,
        "rating"@,
        "review_count"@,
        "fit_score"@,
        "opportunity_score"@,
        "priority_score"@,
        "opportunity_notes"@,
        "found_in_ads"@,
        "found_in_maps"@,
        "found_in_organic"@,
        "cms"@,
        "has_google_analytics"@,
        "has_booking_system"@,
    ]
}

/// The header line: the column titles joined by commas.
pub open spec fn spec_csv_header() -> Seq<char> {
    spec_join(spec_csv_columns(), ","@) + "\n"@
}

fn csv_header_line() -> (r: String)
    ensures
        r@ == spec_csv_header(),
{
    let mut names: Vec<String> = Vec::new();
    names.push("name".to_owned());
    names.push("website".to_owned());
    names.push("phone".to_owned());
    names.push("address".to_owned());
    names.push("emails".to_owned());
    names.push("rating".to_owned());
    names.push("review_count".to_owned());
    names.push("fit_score".to_owned());
    names.push("opportunity_score".to_owned());
    names.push("priority_score".to_owned());
    names.push("opportunity_notes".to_owned());
    names.push("found_in_ads".to_owned());
    names.push("found_in_maps".to_owned());
    names.push("found_in_organic".to_owned());
    names.push("cms".to_owned());
    names.push("has_google_analytics".to_owned());
    names.push("has_booking_system".to_owned());
    proof {
        assert(names.deep_view() =~= spec_csv_columns());
    }
    let mut out = join_strings(&names, ",");
    out.append("\n");
    out
}

/// All data rows, in input order.
pub open spec fn spec_csv_rows(ps: Seq<ProspectV>) -> Seq<char>
    decreases ps.len(),
{
    if ps.len() == 0 {
        Seq::empty()
    } else {
        spec_csv_row(ps[0]) + spec_csv_rows(ps.skip(1))
    }
}

pub proof fn lemma_csv_rows_snoc(ps: Seq<ProspectV>, p: ProspectV)
    ensures
        spec_csv_rows(ps.push(p)) == spec_csv_rows(ps) + spec_csv_row(p),
    decreases ps.len(),
{
    if ps.len() == 0 {
        assert(ps.push(p) =~= seq![p]);
        assert(ps.push(p)[0] == p);
        assert(ps.push(p).skip(1) =~= Seq::<ProspectV>::empty());
        assert(spec_csv_rows(Seq::<ProspectV>::empty()) =~= Seq::<char>::empty());
        assert(spec_csv_rows(ps.push(p)) =~= spec_csv_row(p));
        assert(spec_csv_rows(ps) + spec_csv_row(p) =~= spec_csv_row(p));
    } else {
        assert(ps.push(p)[0] == ps[0]);
        assert(ps.push(p).skip(1) =~= ps.skip(1).push(p));
        lemma_csv_rows_snoc(ps.skip(1), p);
        assert(spec_csv_row(ps[0]) + (spec_csv_rows(ps.skip(1)) + spec_csv_row(p)) =~= (
        spec_csv_row(ps[0]) + spec_csv_rows(ps.skip(1))) + spec_csv_row(p));
    }
}

/// The whole table: header line, then one row per record.
pub open spec fn spec_csv_export(ps: Seq<ProspectV>) -> Seq<char> {
    spec_csv_header() + spec_csv_rows(ps)
}

fn csv_row(p: &Prospect) -> (r: String)
    requires
        p.deep_view().wf(),
    ensures
        r@ == spec_csv_row(p.deep_view()),
{
    let ghost pv = p.deep_view();
    let mut cells: Vec<String> = Vec::new();
    cells.push(csv_cell(str_or_empty(&p.name).as_str()));
    cells.push(csv_cell(str_or_empty(&p.website).as_str()));
    cells.push(csv_cell(str_or_empty(&p.phone).as_str()));
    cells.push(csv_cell(str_or_empty(&p.address).as_str()));
    cells.push(csv_cell(join_strings(&p.emails, "; ").as_str()));
    let rating_text = match &p.rating {
        Some(d) => dec_display(*d),
        None => String::new(),
    };
    cells.push(csv_cell(rating_text.as_str()));
    let review_text = match &p.review_count {
        Some(n) => i64_text(*n),
        None => String::new(),
    };
    cells.push(csv_cell(review_text.as_str()));
    let fit_text = match &p.fit_score {
        Some(n) => i64_text(*n),
        None => zero_string(),
    };
    cells.push(csv_cell(fit_text.as_str()));
    let opp_text = match &p.opportunity_score {
        Some(n) => i64_text(*n),
        None => zero_string(),
    };
    cells.push(csv_cell(opp_text.as_str()));
    let priority_text = match &p.priority_score {
        Some(d) => dec_fixed1(*d),
        None => zero_point_zero_string(),
    };
    cells.push(csv_cell(priority_text.as_str()));
    cells.push(csv_cell(str_or_empty(&p.opportunity_notes).as_str()));
    cells.push(csv_cell(yes_no(p.found_in_ads)));
    cells.push(csv_cell(yes_no(p.found_in_maps)));
    cells.push(csv_cell(yes_no(p.found_in_organic)));
    let cms_text = match &p.signals {
        Some(s) => str_or_empty(&s.cms),
        None => String::new(),
    };
    cells.push(csv_cell(cms_text.as_str()));
    let analytics = match &p.signals {
        Some(s) => match &s.has_google_analytics {
            Some(b) => *b,
            None => false,
        },
        None => false,
    };
    cells.push(csv_cell(yes_no(analytics)));
    let booking = match &p.signals {
        Some(s) => match &s.has_booking_system {
            Some(b) => *b,
            None => false,
        },
        None => false,
    };
    cells.push(csv_cell(yes_no(booking)));
    proof {
        assert(cells.deep_view() =~= spec_csv_cells(pv).map(
            |i: int, c: Seq<char>| spec_csv_cell(c),
        ));
    }
    let mut out = join_strings(&cells, ",");
    out.append("\n");
    out
}

fn zero_string() -> (r: String)
    ensures
        r@ == seq!['0'],
{
    let s = "0".to_owned();
    proof {
        reveal_strlit("0");
        assert(s@ =~= seq!['0']);
    }
    s
}

fn zero_point_zero_string() -> (r: String)
    ensures
        r@ == seq!['0', '.', '0'],
{
    let s = "0.0".to_owned();
    proof {
        reveal_strlit("0.0");
        assert(s@ =~= seq!['0', '.', '0']);
    }
    s
}

/// Encode parsed prospects as the CSV table.
pub fn encode_csv(prospects: &Vec<Prospect>) -> (r: String)
    requires
        forall|i: int|
            0 <= i < prospects.deep_view().len() ==> (#[trigger] prospects.deep_view()[i]).wf(),
    ensures
        r@ == spec_csv_export(prospects.deep_view()),
{
    let mut out = csv_header_line();
    let ghost dv = prospects.deep_view();
    let mut i: usize = 0;
    proof {
        assert(dv.take(0) =~= Seq::<ProspectV>::empty());
    }
    while i < prospects.len()
        invariant
            i <= prospects.len(),
            dv == prospects.deep_view(),
            prospects.deep_view().len() == prospects.len(),
            forall|k: int| 0 <= k < dv.len() ==> (#[trigger] dv[k]).wf(),
            out@ == spec_csv_header() + spec_csv_rows(dv.take(i as int)),
        decreases prospects.len() - i,
    {
        let row = csv_row(&prospects[i]);
        out.append(row.as_str());
        proof {
            assert(dv.take(i as int + 1) =~= dv.take(i as int).push(dv[i as int]));
            lemma_csv_rows_snoc(dv.take(i as int), dv[i as int]);
            assert(out@ =~= spec_csv_header() + spec_csv_rows(dv.take(i as int + 1)));
        }
        i += 1;
    }
    proof {
        assert(dv.take(dv.len() as int) =~= dv);
    }
    out
}

/// Read each loose record into a prospect, then encode the CSV table.
pub fn serialize_prospects_csv(records: &Vec<LooseRecord>) -> (r: String)
    ensures
        r@ == spec_csv_export(records@.map(|i: int, rec: LooseRecord| spec_prospect_of(rec))),
{
    let ghost target = records@.map(|i: int, rec: LooseRecord| spec_prospect_of(rec));
    let mut prospects: Vec<Prospect> = Vec::new();
    let mut i: usize = 0;
    while i < records.len()
        invariant
            i <= records.len(),
            target == records@.map(|k: int, rec: LooseRecord| spec_prospect_of(rec)),
            prospects.deep_view() =~= target.take(i as int),
            forall|k: int|
                0 <= k < prospects.deep_view().len() ==> (#[trigger] prospects.deep_view()[k]).wf(),
        decreases records.len() - i,
    {
        let p = parse_prospect(&records[i]);
        prospects.push(p);
        proof {
            assert(target.take(i as int + 1) =~= target.take(i as int).push(target[i as int]));
            assert(prospects.deep_view() =~= target.take(i as int + 1));
        }
        i += 1;
    }
    proof {
        assert(target.take(records@.len() as int) =~= target);
        assert(prospects.deep_view() =~= target);
    }
    encode_csv(&prospects)
}


proof fn lemma_doubled_clean(s: Seq<char>)
    requires
        spec_line_clean(s),
    ensures
        spec_line_clean(spec_doubled(s)),
    decreases s.len(),
{
    if s.len() > 0 {
        assert(forall|i: int|
            0 <= i < s.skip(1).len() ==> #[trigger] s.skip(1)[i] != '\n' && s.skip(1)[i] != '\r');
        lemma_doubled_clean(s.skip(1));
        assert(spec_line_clean(spec_quoted_chunk(s[0])));
        lemma_clean_concat(spec_quoted_chunk(s[0]), spec_doubled(s.skip(1)));
    }
}

/// Escaping a field never introduces a line break.
proof fn lemma_cell_clean(s: Seq<char>)
    requires
        spec_line_clean(s),
    ensures
        spec_line_clean(spec_csv_cell(s)),
{
    if spec_needs_quote(s) {
        lemma_doubled_clean(s);
        lemma_clean_concat(seq!['"'], spec_doubled(s));
        lemma_clean_concat(seq!['"'] + spec_doubled(s), seq!['"']);
    }
}

/// A record whose text fields hold no line break.
pub open spec fn spec_prospect_line_clean(p: ProspectV) -> bool {
    &&& spec_line_clean(spec_or_empty(p.name))
    &&& spec_line_clean(spec_or_empty(p.website))
    &&& spec_line_clean(spec_or_empty(p.phone))
    &&& spec_line_clean(spec_or_empty(p.address))
    &&& spec_line_clean(spec_or_empty(p.opportunity_notes))
    &&& forall|i: int| 0 <= i < p.emails.len() ==> spec_line_clean(#[trigger] p.emails[i])
    &&& spec_line_clean(spec_cms_text(p.signals))
}

proof fn lemma_yes_no_clean(b: bool)
    ensures
        spec_line_clean(spec_yes_no(b)),
        !spec_needs_quote(spec_yes_no(b)),
{
    reveal_strlit("Yes");
    reveal_strlit("No");
    assert("Yes"@ =~= seq!['Y', 'e', 's']);
    assert("No"@ =~= seq!['N', 'o']);
}

proof fn lemma_csv_cells_clean(p: ProspectV)
    requires
        spec_prospect_line_clean(p),
    ensures
        forall|k: int| 0 <= k < 17 ==> spec_line_clean(#[trigger] spec_csv_cells(p)[k]),
{
    let cells = spec_csv_cells(p);
    reveal_strlit("; ");
    assert("; "@ =~= seq![';', ' ']);
    assert(spec_line_clean("; "@));
    lemma_join_clean(p.emails, "; "@);
    match p.rating {
        Some(d) => lemma_dec_display_clean(d),
        None => {},
    }
    match p.review_count {
        Some(n) => lemma_i64_text_clean(n as int),
        None => {},
    }
    match p.fit_score {
        Some(n) => lemma_i64_text_clean(n as int),
        None => {},
    }
    match p.opportunity_score {
        Some(n) => lemma_i64_text_clean(n as int),
        None => {},
    }
    match p.priority_score {
        Some(d) => lemma_fixed1_shape(d),
        None => {},
    }
    lemma_yes_no_clean(p.found_in_ads);
    lemma_yes_no_clean(p.found_in_maps);
    lemma_yes_no_clean(p.found_in_organic);
    lemma_yes_no_clean(spec_analytics_flag(p.signals));
    lemma_yes_no_clean(spec_booking_flag(p.signals));
    assert(spec_line_clean(cells[0]));
    assert(spec_line_clean(cells[1]));
    assert(spec_line_clean(cells[2]));
    assert(spec_line_clean(cells[3]));
    assert(spec_line_clean(cells[4]));
    assert(spec_line_clean(cells[5]));
    assert(spec_line_clean(cells[6]));
    assert(spec_line_clean(cells[7]));
    assert(spec_line_clean(cells[8]));
    assert(spec_line_clean(cells[9]));
    assert(spec_line_clean(cells[10]));
    assert(spec_line_clean(cells[11]));
    assert(spec_line_clean(cells[12]));
    assert(spec_line_clean(cells[13]));
    assert(spec_line_clean(cells[14]));
    assert(spec_line_clean(cells[15]));
    assert(spec_line_clean(cells[16]));
}

proof fn lemma_single_newline_count()
    ensures
        spec_count_char("\n"@, '\n') == 1,
{
    reveal_strlit("\n");
    assert("\n"@ =~= seq!['\n']);
    assert(seq!['\n'].drop_last() =~= Seq::<char>::empty());
    assert(spec_count_char(Seq::<char>::empty(), '\n') == 0);
    assert(spec_count_char(seq!['\n'], '\n') == 1);
}

/// One encoded row is a single line: it holds exactly one line feed,
/// the one that ends it.
pub proof fn lemma_csv_row_line_count(p: ProspectV)
    requires
        spec_prospect_line_clean(p),
    ensures
        spec_count_char(spec_csv_row(p), '\n') == 1,
{
    let raw = spec_csv_cells(p);
    let esc = raw.map(|i: int, c: Seq<char>| spec_csv_cell(c));
    lemma_csv_cells_clean(p);
    assert forall|k: int| 0 <= k < esc.len() implies spec_line_clean(#[trigger] esc[k]) by {
        assert(esc[k] == spec_csv_cell(raw[k]));
        lemma_cell_clean(raw[k]);
    }
    reveal_strlit(",");
    assert(","@ =~= seq![',']);
    assert(spec_line_clean(","@));
    lemma_join_clean(esc, ","@);
    lemma_count_char_absent(spec_join(esc, ","@), '\n');
    lemma_count_char_concat(spec_join(esc, ","@), "\n"@, '\n');
    lemma_single_newline_count();
}

proof fn lemma_csv_rows_line_count(ps: Seq<ProspectV>)
    requires
        forall|i: int| 0 <= i < ps.len() ==> spec_prospect_line_clean(#[trigger] ps[i]),
    ensures
        spec_count_char(spec_csv_rows(ps), '\n') == ps.len(),
    decreases ps.len(),
{
    if ps.len() == 0 {
        assert(spec_count_char(Seq::<char>::empty(), '\n') == 0);
    } else {
        assert(forall|i: int|
            0 <= i < ps.skip(1).len() ==> spec_prospect_line_clean(#[trigger] ps.skip(1)[i]));
        lemma_csv_rows_line_count(ps.skip(1));
        lemma_csv_row_line_count(ps[0]);
        lemma_count_char_concat(spec_csv_row(ps[0]), spec_csv_rows(ps.skip(1)), '\n');
    }
}

proof fn lemma_csv_header_line_count()
    ensures
        spec_count_char(spec_csv_header(), '\n') == 1,
{
    reveal_strlit("name");
    reveal_strlit("website");
    reveal_strlit("phone");
    reveal_strlit("address");
    reveal_strlit("emails");
    reveal_strlit("rating");
    reveal_strlit("review_count");
    reveal_strlit("fit_score");
    reveal_strlit("opportunity_score");
    reveal_strlit("priority_score");
    reveal_strlit("opportunity_notes");
    reveal_strlit("found_in_ads");
    reveal_strlit("found_in_maps");
    reveal_strlit("found_in_organic");
    reveal_strlit("cms");
    reveal_strlit("has_google_analytics");
    reveal_strlit("has_booking_system");
    let cols = spec_csv_columns();
    assert("name"@ =~= seq!['n', 'a', 'm', 'e']);
    assert("website"@ =~= seq!['w', 'e', 'b', 's', 'i', 't', 'e']);
    assert("phone"@ =~= seq!['p', 'h', 'o', 'n', 'e']);
    assert("address"@ =~= seq!['a', 'd', 'd', 'r', 'e', 's', 's']);
    assert("emails"@ =~= seq!['e', 'm', 'a', 'i', 'l', 's']);
    assert("rating"@ =~= seq!['r', 'a', 't', 'i', 'n', 'g']);
    assert("review_count"@ =~= seq!['r', 'e', 'v', 'i', 'e', 'w', '_', 'c', 'o', 'u', 'n', 't']);
    assert("fit_score"@ =~= seq!['f', 'i', 't', '_', 's', 'c', 'o', 'r', 'e']);
    assert("opportunity_score"@ =~= seq![
        'o', 'p', 'p', 'o', 'r', 't', 'u', 'n', 'i', 't', 'y', '_', 's', 'c', 'o', 'r', 'e',
    ]);
    assert("priority_score"@ =~= seq![
        'p', 'r', 'i', 'o', 'r', 'i', 't', 'y', '_', 's', 'c', 'o', 'r', 'e',
    ]);
    assert("opportunity_notes"@ =~= seq![
        'o', 'p', 'p', 'o', 'r', 't', 'u', 'n', 'i', 't', 'y', '_', 'n', 'o', 't', 'e', 's',
    ]);
    assert("found_in_ads"@ =~= seq!['f', 'o', 'u', 'n', 'd', '_', 'i', 'n', '_', 'a', 'd', 's']);
    assert("found_in_maps"@ =~= seq![
        'f', 'o', 'u', 'n', 'd', '_', 'i', 'n', '_', 'm', 'a', 'p', 's',
    ]);
    assert("found_in_organic"@ =~= seq![
        'f', 'o', 'u', 'n', 'd', '_', 'i', 'n', '_', 'o', 'r', 'g', 'a', 'n', 'i', 'c',
    ]);
    assert("cms"@ =~= seq!['c', 'm', 's']);
    assert("has_google_analytics"@ =~= seq![
        'h', 'a', 's', '_', 'g', 'o', 'o', 'g', 'l', 'e', '_', 'a', 'n', 'a', 'l', 'y', 't', 'i',
        'c', 's',
    ]);
    assert("has_booking_system"@ =~= seq![
        'h', 'a', 's', '_', 'b', 'o', 'o', 'k', 'i', 'n', 'g', '_', 's', 'y', 's', 't', 'e', 'm',
    ]);
    assert forall|k: int| 0 <= k < cols.len() implies spec_line_clean(#[trigger] cols[k]) by {
        assert(spec_line_clean(cols[0]));
        assert(spec_line_clean(cols[1]));
        assert(spec_line_clean(cols[2]));
        assert(spec_line_clean(cols[3]));
        assert(spec_line_clean(cols[4]));
        assert(spec_line_clean(cols[5]));
        assert(spec_line_clean(cols[6]));
        assert(spec_line_clean(cols[7]));
        assert(spec_line_clean(cols[8]));
        assert(spec_line_clean(cols[9]));
        assert(spec_line_clean(cols[10]));
        assert(spec_line_clean(cols[11]));
        assert(spec_line_clean(cols[12]));
        assert(spec_line_clean(cols[13]));
        assert(spec_line_clean(cols[14]));
        assert(spec_line_clean(cols[15]));
        assert(spec_line_clean(cols[16]));
    }
    reveal_strlit(",");
    assert(","@ =~= seq![',']);
    assert(spec_line_clean(","@));
    lemma_join_clean(cols, ","@);
    lemma_count_char_absent(spec_join(cols, ","@), '\n');
    lemma_count_char_concat(spec_join(cols, ","@), "\n"@, '\n');
    lemma_single_newline_count();
}

/// For a list of records whose text fields hold no line break, the
/// table holds exactly one line per record, plus the header line.
pub proof fn lemma_csv_line_count(ps: Seq<ProspectV>)
    requires
        forall|i: int| 0 <= i < ps.len() ==> spec_prospect_line_clean(#[trigger] ps[i]),
    ensures
        spec_count_char(spec_csv_export(ps), '\n') == ps.len() + 1,
{
    lemma_csv_header_line_count();
    lemma_csv_rows_line_count(ps);
    lemma_count_char_concat(spec_csv_header(), spec_csv_rows(ps), '\n');
}

/// Every row is built from exactly 17 cells, one per column title.
pub proof fn lemma_csv_row_structure(p: ProspectV)
    ensures
        spec_csv_columns().len() == 17,
        spec_csv_cells(p).len() == 17,
        spec_csv_row(p) == spec_join(
            spec_csv_cells(p).map(|i: int, c: Seq<char>| spec_csv_cell(c)),
            ","@,
        ) + "\n"@,
{
}

/// The five boolean columns render as exactly `Yes` or `No`, even
/// after escaping.
pub proof fn lemma_csv_bool_cells(p: ProspectV)
    ensures
        ({
            let rendered = spec_csv_cells(p).map(|i: int, c: Seq<char>| spec_csv_cell(c));
            &&& rendered[11] == "Yes"@ || rendered[11] == "No"@
            &&& rendered[12] == "Yes"@ || rendered[12] == "No"@
            &&& rendered[13] == "Yes"@ || rendered[13] == "No"@
            &&& rendered[15] == "Yes"@ || rendered[15] == "No"@
            &&& rendered[16] == "Yes"@ || rendered[16] == "No"@
        }),
{
    lemma_yes_no_clean(true);
    lemma_yes_no_clean(false);
    let rendered = spec_csv_cells(p).map(|i: int, c: Seq<char>| spec_csv_cell(c));
    assert(rendered[11] == spec_csv_cell(spec_yes_no(p.found_in_ads)));
    assert(rendered[12] == spec_csv_cell(spec_yes_no(p.found_in_maps)));
    assert(rendered[13] == spec_csv_cell(spec_yes_no(p.found_in_organic)));
    assert(rendered[15] == spec_csv_cell(spec_yes_no(spec_analytics_flag(p.signals))));
    assert(rendered[16] == spec_csv_cell(spec_yes_no(spec_booking_flag(p.signals))));
}

/// The priority column always carries exactly one fractional digit:
/// the rendered cell ends in a point and a single digit, with no
/// other point before them.
pub proof fn lemma_csv_priority_cell(p: ProspectV)
    ensures
        ({
            let c = spec_csv_cells(p).map(|i: int, c: Seq<char>| spec_csv_cell(c))[9];
            &&& c.len() >= 3
            &&& c[c.len() - 2] == '.'
            &&& spec_is_digit(c[c.len() - 1])
            &&& forall|j: int| 0 <= j < c.len() - 2 ==> #[trigger] c[j] != '.'
        }),
{
    let raw = spec_priority_fixed1(p.priority_score);
    match p.priority_score {
        Some(d) => {
            lemma_fixed1_shape(d);
            assert forall|j: int|
                0 <= j < raw.len() implies raw[j] != ',' && raw[j] != '"' && raw[j] != '\n'
                && raw[j] != '\r' by {
                assert(raw[j] == '-' || raw[j] == '.' || spec_is_digit(raw[j]));
            }
            assert(!spec_needs_quote(raw));
        },
        None => {
            assert(raw =~= seq!['0', '.', '0']);
            assert(!spec_needs_quote(raw));
        },
    }
    assert(spec_csv_cells(p).map(|i: int, c: Seq<char>| spec_csv_cell(c))[9] == spec_csv_cell(raw));
    assert(spec_csv_cell(raw) == raw);
}

/// An empty record list yields the header line alone.
pub proof fn lemma_csv_empty_export()
    ensures
        spec_csv_export(Seq::empty()) == spec_csv_header(),
{
    assert(spec_csv_rows(Seq::empty()) == Seq::<char>::empty());
    assert(spec_csv_header() + Seq::<char>::empty() =~= spec_csv_header());
}

/// An empty email list renders as an empty cell.
pub proof fn lemma_empty_emails_cell(p: ProspectV)
    requires
        p.emails.len() == 0,
    ensures
        spec_csv_cells(p)[4] == Seq::<char>::empty(),
{
}

/// Encoding is a function of the records alone: any two results for
/// the same record list are identical, in one process or across two.
pub proof fn lemma_csv_encoding_deterministic(ps: Seq<ProspectV>, r1: Seq<char>, r2: Seq<char>)
    requires
        r1 == spec_csv_export(ps),
        r2 == spec_csv_export(ps),
    ensures
        r1 == r2,
{
}

} // verus!
