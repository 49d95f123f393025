//! The prospect data model and the field coercion layer.
//!
//! Upstream producers hand over a loosely-typed record: an ordered list
//! of key/value pairs whose values may be missing, null, or of an
//! unexpected type.  The coercion layer reads such a record without
//! ever failing: a missing key, a null, or a value of the wrong type
//! all coerce to the documented absent/default result.  Parsing turns a
//! loose record into the strongly-typed immutable `Prospect` that both
//! encoders consume.

use vstd::prelude::*;
use crate::decimal::Dec;
use crate::text::str_eq;

verus! {

/// One loosely-typed field value.
pub enum FieldValue {
    /// An explicit null; coerces like a missing key.
    Null,
    Boolean(bool),
    Integer(i64),
    /// A numeric value, already in exact decimal form.
    Number(Dec),
    Text(String),
    TextList(Vec<String>),
    /// A nested sub-record (the `signals` unit).
    Nested(LooseRecord),
}

/// A loosely-typed record: key/value pairs in insertion order.
/// When a key occurs twice, the first occurrence wins.
pub struct LooseRecord {
    pub entries: Vec<(String, FieldValue)>,
}

/// The first value stored under `key`, if any.
pub open spec fn spec_lookup(entries: Seq<(String, FieldValue)>, key: Seq<char>) -> Option<
    FieldValue,
>
    decreases entries.len(),
{
    if entries.len() == 0 {
        None
    } else if entries[0].0@ == key {
        Some(entries[0].1)
    } else {
        spec_lookup(entries.skip(1), key)
    }
}

/// Find the first entry stored under `key`.
pub fn lookup<'a>(rec: &'a LooseRecord, key: &str) -> (out: Option<&'a FieldValue>)
    ensures
        match out {
            Some(v) => spec_lookup(rec.entries@, key@) == Some(*v),
            None => spec_lookup(rec.entries@, key@) is None,
        },
{
    let mut i: usize = 0;
    proof {
        assert(rec.entries@.skip(0) =~= rec.entries@);
    }
    while i < rec.entries.len()
        invariant
            i <= rec.entries.len(),
            spec_lookup(rec.entries@, key@) == spec_lookup(rec.entries@.skip(i as int), key@),
        decreases rec.entries.len() - i,
    {
        let e = &rec.entries[i];
        proof {
            assert(rec.entries@.skip(i as int)[0] == rec.entries@[i as int]);
        }
        if str_eq(e.0.as_str(), key) {
            return Some(&e.1);
        }
        proof {
            assert(rec.entries@.skip(i as int).skip(1) =~= rec.entries@.skip(i as int + 1));
        }
        i += 1;
    }
    proof {
        assert(rec.entries@.skip(rec.entries@.len() as int).len() == 0);
    }
    None
}

/// The string under `key`, absent on a missing key or other type.
pub open spec fn spec_opt_string(rec: LooseRecord, key: Seq<char>) -> Option<Seq<char>> {
    match spec_lookup(rec.entries@, key) {
        Some(FieldValue::Text(s)) => Some(s@),
        _ => None,
    }
}

pub fn extract_opt_string(rec: &LooseRecord, key: &str) -> (out: Option<String>)
    ensures
        out.deep_view() == spec_opt_string(*rec, key@),
{
    match lookup(rec, key) {
        Some(v) => match v {
            FieldValue::Text(s) => Some(s.clone()),
            _ => None,
        },
        None => None,
    }
}

/// The integer under `key`, absent on a missing key or other type.
pub open spec fn spec_opt_int(rec: LooseRecord, key: Seq<char>) -> Option<i64> {
    match spec_lookup(rec.entries@, key) {
        Some(FieldValue::Integer(n)) => Some(n),
        _ => None,
    }
}

pub fn extract_opt_int(rec: &LooseRecord, key: &str) -> (out: Option<i64>)
    ensures
        out == spec_opt_int(*rec, key@),
{
    match lookup(rec, key) {
        Some(v) => match v {
            FieldValue::Integer(n) => Some(*n),
            _ => None,
        },
        None => None,
    }
}

/// The exact decimal standing for a machine integer.
pub open spec fn spec_dec_of_i64(n: i64) -> Dec {
    Dec {
        neg: n < 0,
        mantissa: (if n < 0 {
            -(n as int)
        } else {
            n as int
        }) as u64,
        scale: 0,
    }
}

/// The number under `key`: a stored decimal when it is well formed, an
/// integer coerced to a decimal, absent otherwise.
pub open spec fn spec_opt_number(rec: LooseRecord, key: Seq<char>) -> Option<Dec> {
    match spec_lookup(rec.entries@, key) {
        Some(FieldValue::Number(d)) => if d.wf() {
            Some(d)
        } else {
            None
        },
        Some(FieldValue::Integer(n)) => Some(spec_dec_of_i64(n)),
        _ => None,
    }
}

pub fn extract_opt_number(rec: &LooseRecord, key: &str) -> (out: Option<Dec>)
    ensures
        out == spec_opt_number(*rec, key@),
        match out {
            Some(d) => d.wf(),
            None => true,
        },
{
    match lookup(rec, key) {
        Some(v) => match v {
            FieldValue::Number(d) => if d.scale <= 18 {
                Some(*d)
            } else {
                None
            },
            FieldValue::Integer(n) => {
                let n = *n;
                let mag: u64 = if n < 0 {
                    ((-(n + 1)) as u64) + 1
                } else {
                    n as u64
                };
                Some(Dec { neg: n < 0, mantissa: mag, scale: 0 })
            },
            _ => None,
        },
        None => None,
    }
}

/// The boolean under `key`, `false` on a missing key or other type.
pub open spec fn spec_bool_or_false(rec: LooseRecord, key: Seq<char>) -> bool {
    match spec_lookup(rec.entries@, key) {
        Some(FieldValue::Boolean(b)) => b,
        _ => false,
    }
}

pub fn extract_bool(rec: &LooseRecord, key: &str) -> (out: bool)
    ensures
        out == spec_bool_or_false(*rec, key@),
{
    match lookup(rec, key) {
        Some(v) => match v {
            FieldValue::Boolean(b) => *b,
            _ => false,
        },
        None => false,
    }
}

/// The boolean under `key`, or absent: kept distinct from
/// `extract_bool` where the output must tell "unknown" from "false".
pub open spec fn spec_opt_bool(rec: LooseRecord, key: Seq<char>) -> Option<bool> {
    match spec_lookup(rec.entries@, key) {
        Some(FieldValue::Boolean(b)) => Some(b),
        _ => None,
    }
}

pub fn extract_opt_bool(rec: &LooseRecord, key: &str) -> (out: Option<bool>)
    ensures
        out == spec_opt_bool(*rec, key@),
{
    match lookup(rec, key) {
        Some(v) => match v {
            FieldValue::Boolean(b) => Some(*b),
            _ => None,
        },
        None => None,
    }
}

/// The string list under `key`, empty on a missing key or other type.
pub open spec fn spec_string_list(rec: LooseRecord, key: Seq<char>) -> Seq<Seq<char>> {
    match spec_lookup(rec.entries@, key) {
        Some(FieldValue::TextList(v)) => v.deep_view(),
        _ => Seq::empty(),
    }
}

pub fn extract_string_list(rec: &LooseRecord, key: &str) -> (out: Vec<String>)
    ensures
        out.deep_view() == spec_string_list(*rec, key@),
{
    broadcast use vstd::std_specs::vec::vec_clone_deep_view_proof;

    match lookup(rec, key) {
        Some(v) => match v {
            FieldValue::TextList(items) => items.clone(),
            _ => Vec::new(),
        },
        None => Vec::new(),
    }
}

/// The nested sub-record under `key`, if any.
pub open spec fn spec_nested(rec: LooseRecord, key: Seq<char>) -> Option<LooseRecord> {
    match spec_lookup(rec.entries@, key) {
        Some(FieldValue::Nested(sub)) => Some(sub),
        _ => None,
    }
}

/// The `signals` sub-record: present as a unit or absent as a unit.
pub fn extract_signals<'a>(rec: &'a LooseRecord) -> (out: Option<&'a LooseRecord>)
    ensures
        match out {
            Some(sub) => spec_nested(*rec, "signals"@) == Some(*sub),
            None => spec_nested(*rec, "signals"@) is None,
        },
{
    match lookup(rec, "signals") {
        Some(v) => match v {
            FieldValue::Nested(sub) => Some(sub),
            _ => None,
        },
        None => None,
    }
}

/// Website-analysis facts attached to a prospect; each field may be
/// independently absent.
pub struct Signals {
    pub reachable: Option<bool>,
    pub cms: Option<String>,
    pub has_google_analytics: Option<bool>,
    pub has_facebook_pixel: Option<bool>,
    pub has_google_ads: Option<bool>,
    pub has_booking_system: Option<bool>,
    pub load_time_ms: Option<i64>,
    pub title: Option<String>,
    pub meta_description: Option<String>,
    pub social_links: Vec<String>,
}

/// The mathematical shadow of `Signals`: text as character sequences.
#[verifier::ext_equal]
pub struct SignalsV {
    pub reachable: Option<bool>,
    pub cms: Option<Seq<char>>,
    pub has_google_analytics: Option<bool>,
    pub has_facebook_pixel: Option<bool>,
    pub has_google_ads: Option<bool>,
    pub has_booking_system: Option<bool>,
    pub load_time_ms: Option<i64>,
    pub title: Option<Seq<char>>,
    pub meta_description: Option<Seq<char>>,
    pub social_links: Seq<Seq<char>>,
}

impl DeepView for Signals {
    type V = SignalsV;

    open spec fn deep_view(&self) -> SignalsV {
        SignalsV {
            reachable: self.reachable,
            cms: self.cms.deep_view(),
            has_google_analytics: self.has_google_analytics,
            has_facebook_pixel: self.has_facebook_pixel,
            has_google_ads: self.has_google_ads,
            has_booking_system: self.has_booking_system,
            load_time_ms: self.load_time_ms,
            title: self.title.deep_view(),
            meta_description: self.meta_description.deep_view(),
            social_links: self.social_links.deep_view(),
        }
    }
}

/// One collected business record, immutable for the duration of an
/// export call.
pub struct Prospect {
    pub name: Option<String>,
    pub website: Option<String>,
    pub domain: Option<String>,
    pub phone: Option<String>,
    pub address: Option<String>,
    pub emails: Vec<String>,
    pub found_in_ads: bool,
    pub ad_position: Option<i64>,
    pub found_in_maps: bool,
    pub maps_position: Option<i64>,
    pub found_in_organic: bool,
    pub organic_position: Option<i64>,
    pub rating: Option<Dec>,
    pub review_count: Option<i64>,
    pub category: Option<String>,
    pub fit_score: Option<i64>,
    pub opportunity_score: Option<i64>,
    pub priority_score: Option<Dec>,
    pub opportunity_notes: Option<String>,
    pub source: Option<String>,
    pub scraped_at: Option<String>,
    pub signals: Option<Signals>,
}

/// The mathematical shadow of `Prospect`.
#[verifier::ext_equal]
pub struct ProspectV {
    pub name: Option<Seq<char>>,
    pub website: Option<Seq<char>>,
    pub domain: Option<Seq<char>>,
    pub phone: Option<Seq<char>>,
    pub address: Option<Seq<char>>,
    pub emails: Seq<Seq<char>>,
    pub found_in_ads: bool,
    pub ad_position: Option<i64>,
    pub found_in_maps: bool,
    pub maps_position: Option<i64>,
    pub found_in_organic: bool,
    pub organic_position: Option<i64>,
    pub rating: Option<Dec>,
    pub review_count: Option<i64>,
    pub category: Option<Seq<char>>,
    pub fit_score: Option<i64>,
    pub opportunity_score: Option<i64>,
    pub priority_score: Option<Dec>,
    pub opportunity_notes: Option<Seq<char>>,
    pub source: Option<Seq<char>>,
    pub scraped_at: Option<Seq<char>>,
    pub signals: Option<SignalsV>,
}

impl DeepView for Prospect {
    type V = ProspectV;

    open spec fn deep_view(&self) -> ProspectV {
        ProspectV {
            name: self.name.deep_view(),
            website: self.website.deep_view(),
            domain: self.domain.deep_view(),
            phone: self.phone.deep_view(),
            address: self.address.deep_view(),
            emails: self.emails.deep_view(),
            found_in_ads: self.found_in_ads,
            ad_position: self.ad_position,
            found_in_maps: self.found_in_maps,
            maps_position: self.maps_position,
            found_in_organic: self.found_in_organic,
            organic_position: self.organic_position,
            rating: self.rating,
            review_count: self.review_count,
            category: self.category.deep_view(),
            fit_score: self.fit_score,
            opportunity_score: self.opportunity_score,
            priority_score: self.priority_score,
            opportunity_notes: self.opportunity_notes.deep_view(),
            source: self.source.deep_view(),
            scraped_at: self.scraped_at.deep_view(),
            signals: self.signals.deep_view(),
        }
    }
}

impl ProspectV {
    /// Every decimal the record carries can be rendered.
    pub open spec fn wf(self) -> bool {
        &&& match self.rating {
            Some(d) => d.wf(),
            None => true,
        }
        &&& match self.priority_score {
            Some(d) => d.wf(),
            None => true,
        }
    }
}

/// The signals fields read out of a signals sub-record.
pub open spec fn spec_signals_of(sub: LooseRecord) -> SignalsV {
    SignalsV {
        reachable: spec_opt_bool(sub, "reachable"@),
        cms: spec_opt_string(sub, "cms"@),
        has_google_analytics: spec_opt_bool(sub, "has_google_analytics"@),
        has_facebook_pixel: spec_opt_bool(sub, "has_facebook_pixel"@),
        has_google_ads: spec_opt_bool(sub, "has_google_ads"@),
        has_booking_system: spec_opt_bool(sub, "has_booking_system"@),
        load_time_ms: spec_opt_int(sub, "load_time_ms"@),
        title: spec_opt_string(sub, "title"@),
        meta_description: spec_opt_string(sub, "meta_description"@),
        social_links: spec_string_list(sub, "social_links"@),
    }
}

/// The prospect read out of a loose record by the coercion layer.
pub open spec fn spec_prospect_of(rec: LooseRecord) -> ProspectV {
    ProspectV {
        name: spec_opt_string(rec, "name"@),
        website: spec_opt_string(rec, "website"@),
        domain: spec_opt_string(rec, "domain"@),
        phone: spec_opt_string(rec, "phone"@),
        address: spec_opt_string(rec, "address"@),
        emails: spec_string_list(rec, "emails"@),
        found_in_ads: spec_bool_or_false(rec, "found_in_ads"@),
        ad_position: spec_opt_int(rec, "ad_position"@),
        found_in_maps: spec_bool_or_false(rec, "found_in_maps"@),
        maps_position: spec_opt_int(rec, "maps_position"@),
        found_in_organic: spec_bool_or_false(rec, "found_in_organic"@),
        organic_position: spec_opt_int(rec, "organic_position"@),
        rating: spec_opt_number(rec, "rating"@),
        review_count: spec_opt_int(rec, "review_count"@),
        category: spec_opt_string(rec, "category"@),
        fit_score: spec_opt_int(rec, "fit_score"@),
        opportunity_score: spec_opt_int(rec, "opportunity_score"@),
        priority_score: spec_opt_number(rec, "priority_score"@),
        opportunity_notes: spec_opt_string(rec, "opportunity_notes"@),
        source: spec_opt_string(rec, "source"@),
        scraped_at: spec_opt_string(rec, "scraped_at"@),
        signals: match spec_nested(rec, "signals"@) {
            Some(sub) => Some(spec_signals_of(sub)),
            None => None,
        },
    }
}

fn parse_signals(sub: &LooseRecord) -> (s: Signals)
    ensures
        s.deep_view() == spec_signals_of(*sub),
{
    let s = Signals {
        reachable: extract_opt_bool(sub, "reachable"),
        cms: extract_opt_string(sub, "cms"),
        has_google_analytics: extract_opt_bool(sub, "has_google_analytics"),
        has_facebook_pixel: extract_opt_bool(sub, "has_facebook_pixel"),
        has_google_ads: extract_opt_bool(sub, "has_google_ads"),
        has_booking_system: extract_opt_bool(sub, "has_booking_system"),
        load_time_ms: extract_opt_int(sub, "load_time_ms"),
        title: extract_opt_string(sub, "title"),
        meta_description: extract_opt_string(sub, "meta_description"),
        social_links: extract_string_list(sub, "social_links"),
    };
    proof {
        assert(s.deep_view() =~= spec_signals_of(*sub));
    }
    s
}

/// Read a loose record into a strongly-typed prospect.  Total: every
/// field falls back to its documented absent/default value.
pub fn parse_prospect(rec: &LooseRecord) -> (p: Prospect)
    ensures
        p.deep_view() == spec_prospect_of(*rec),
        p.deep_view().wf(),
{
    let signals = match extract_signals(rec) {
        Some(sub) => Some(parse_signals(sub)),
        None => None,
    };
    let p = Prospect {
        name: extract_opt_string(rec, "name"),
        website: extract_opt_string(rec, "website"),
        domain: extract_opt_string(rec, "domain"),
        phone: extract_opt_string(rec, "phone"),
        address: extract_opt_string(rec, "address"),
        emails: extract_string_list(rec, "emails"),
        found_in_ads: extract_bool(rec, "found_in_ads"),
        ad_position: extract_opt_int(rec, "ad_position"),
        found_in_maps: extract_bool(rec, "found_in_maps"),
        maps_position: extract_opt_int(rec, "maps_position"),
        found_in_organic: extract_bool(rec, "found_in_organic"),
        organic_position: extract_opt_int(rec, "organic_position"),
        rating: extract_opt_number(rec, "rating"),
        review_count: extract_opt_int(rec, "review_count"),
        category: extract_opt_string(rec, "category"),
        fit_score: extract_opt_int(rec, "fit_score"),
        opportunity_score: extract_opt_int(rec, "opportunity_score"),
        priority_score: extract_opt_number(rec, "priority_score"),
        opportunity_notes: extract_opt_string(rec, "opportunity_notes"),
        source: extract_opt_string(rec, "source"),
        scraped_at: extract_opt_string(rec, "scraped_at"),
        signals,
    };
    proof {
        assert(p.deep_view() =~= spec_prospect_of(*rec));
    }
    p
}

} // verus!
