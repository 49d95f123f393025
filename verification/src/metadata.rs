//! HTML page metadata: title, description and social links.
//!
//! An HTML parser finds the title text, the meta description and the
//! link targets; which of those links count as social links — a target
//! that contains a known social-platform domain, kept once each in
//! first-seen order — is this crate's own, verified logic.

use vstd::prelude::*;
use crate::text::str_eq;

verus! {

/// Unicode white space, the set `str::trim` removes.
pub open spec fn spec_is_space(c: char) -> bool {
    c == ' ' || c == '\t' || c == '\n' || c == '\r' || c == '\u{b}' || c == '\u{c}' || c == '\u{85}'
        || c == '\u{a0}' || c == '\u{1680}' || ('\u{2000}' <= c && c <= '\u{200a}') || c
        == '\u{2028}' || c == '\u{2029}' || c == '\u{202f}' || c == '\u{205f}' || c == '\u{3000}'
}

fn is_space_char(c: char) -> (r: bool)
    ensures
        r == spec_is_space(c),
{
    c == ' ' || c == '\t' || c == '\n' || c == '\r' || c == '\u{b}' || c == '\u{c}' || c == '\u{85}'
        || c == '\u{a0}' || c == '\u{1680}' || ('\u{2000}' <= c && c <= '\u{200a}') || c
        == '\u{2028}' || c == '\u{2029}' || c == '\u{202f}' || c == '\u{205f}' || c == '\u{3000}'
}

/// `s` with leading white space removed.
pub open spec fn spec_trim_front(s: Seq<char>) -> Seq<char>
    decreases s.len(),
{
    if s.len() > 0 && spec_is_space(s[0]) {
        spec_trim_front(s.skip(1))
    } else {
        s
    }
}

/// `s` with trailing white space removed.
pub open spec fn spec_trim_back(s: Seq<char>) -> Seq<char>
    decreases s.len(),
{
    if s.len() > 0 && spec_is_space(s.last()) {
        spec_trim_back(s.drop_last())
    } else {
        s
    }
}

/// `s` with surrounding white space removed.
pub open spec fn spec_trim(s: Seq<char>) -> Seq<char> {
    spec_trim_back(spec_trim_front(s))
}

/// Remove surrounding white space.
pub fn trim_text(s: &str) -> (r: String)
    ensures
        r@ == spec_trim(s@),
{
    let n = s.unicode_len();
    let mut a: usize = 0;
    proof {
        assert(s@.skip(0) =~= s@);
    }
    while a < n && is_space_char(s.get_char(a))
        invariant
            n == s@.len(),
            a <= n,
            spec_trim_front(s@) == spec_trim_front(s@.skip(a as int)),
        decreases n - a,
    {
        proof {
            assert(s@.skip(a as int)[0] == s@[a as int]);
            assert(s@.skip(a as int).skip(1) =~= s@.skip(a as int + 1));
        }
        a += 1;
    }
    proof {
        assert(spec_trim_front(s@) == s@.skip(a as int));
    }
    let mut b: usize = n;
    proof {
        assert(s@.skip(a as int) =~= s@.subrange(a as int, n as int));
    }
    while b > a && is_space_char(s.get_char(b - 1))
        invariant
            n == s@.len(),
            a <= b <= n,
            spec_trim_back(s@.skip(a as int)) == spec_trim_back(s@.subrange(a as int, b as int)),
        decreases b,
    {
        proof {
            assert(s@.subrange(a as int, b as int).last() == s@[b as int - 1]);
            assert(s@.subrange(a as int, b as int).drop_last() =~= s@.subrange(
                a as int,
                b as int - 1,
            ));
        }
        b -= 1;
    }
    proof {
        assert(spec_trim_back(s@.subrange(a as int, b as int)) == s@.subrange(a as int, b as int));
    }
    s.substring_char(a, b).to_owned()
}

/// Whether `needle` occurs in `hay` starting at position `i`.
pub open spec fn spec_match_at(hay: Seq<char>, needle: Seq<char>, i: int) -> bool {
    hay.subrange(i, i + needle.len()) == needle
}

/// Whether `needle` occurs somewhere in `hay`.
pub open spec fn spec_contains(hay: Seq<char>, needle: Seq<char>) -> bool {
    exists|i: int| 0 <= i <= hay.len() - needle.len() && spec_match_at(hay, needle, i)
}

/// Substring test by character comparison.
pub fn contains_sub(hay: &str, needle: &str) -> (r: bool)
    ensures
        r == spec_contains(hay@, needle@),
{
    let hl = hay.unicode_len();
    let nl = needle.unicode_len();
    if nl > hl {
        proof {
            assert(!spec_contains(hay@, needle@));
        }
        return false;
    }
    let mut i: usize = 0;
    while i <= hl - nl
        invariant
            hl == hay@.len(),
            nl == needle@.len(),
            nl <= hl,
            i <= hl - nl + 1,
            forall|k: int| 0 <= k < i ==> !spec_match_at(hay@, needle@, k),
        decreases hl - nl + 1 - i,
    {
        let mut j: usize = 0;
        let mut matched = true;
        while j < nl
            invariant
                hl == hay@.len(),
                nl == needle@.len(),
                i + nl <= hl,
                j <= nl,
                matched == (forall|t: int| 0 <= t < j ==> hay@[i + t] == needle@[t]),
            decreases nl - j,
        {
            if hay.get_char(i + j) != needle.get_char(j) {
                matched = false;
                proof {
                    assert(hay@[i as int + j as int] != needle@[j as int]);
                }
                j = nl;
            } else {
                j += 1;
            }
        }
        if matched {
            proof {
                assert(hay@.subrange(i as int, i as int + nl as int) =~= needle@);
                assert(spec_match_at(hay@, needle@, i as int));
            }
            return true;
        }
        i += 1;
    }
    proof {
        assert(forall|k: int|
            0 <= k <= hay@.len() - needle@.len() ==> !spec_match_at(hay@, needle@, k));
    }
    false
}

/// Whether a link target points at a known social platform.
pub open spec fn spec_is_social_link(href: Seq<char>) -> bool {
    spec_contains(href, "facebook.com"@) || spec_contains(href, "instagram.com"@)
        || spec_contains(href, "twitter.com"@) || spec_contains(href, "linkedin.com"@)
        || spec_contains(href, "youtube.com"@) || spec_contains(href, "tiktok.com"@)
}

fn is_social_link(href: &str) -> (r: bool)
    ensures
        r == spec_is_social_link(href@),
{
    contains_sub(href, "facebook.com") || contains_sub(href, "instagram.com") || contains_sub(
        href,
        "twitter.com",
    ) || contains_sub(href, "linkedin.com") || contains_sub(href, "youtube.com") || contains_sub(
        href,
        "tiktok.com",
    )
}

/// Walk the link targets in order, keeping each social link the first
/// time it is seen.
pub open spec fn spec_collect_social(links: Seq<Seq<char>>, acc: Seq<Seq<char>>) -> Seq<Seq<char>>
    decreases links.len(),
{
    if links.len() == 0 {
        acc
    } else {
        let acc2 = if spec_is_social_link(links[0]) && !acc.contains(links[0]) {
            acc.push(links[0])
        } else {
            acc
        };
        spec_collect_social(links.skip(1), acc2)
    }
}

/// The deduplicated social links of a link list, first-seen order.
pub open spec fn spec_social_links(links: Seq<Seq<char>>) -> Seq<Seq<char>> {
    spec_collect_social(links, Seq::empty())
}

fn contains_string(v: &Vec<String>, s: &str) -> (r: bool)
    ensures
        r == v.deep_view().contains(s@),
{
    let mut j: usize = 0;
    while j < v.len()
        invariant
            j <= v.len(),
            forall|k: int| 0 <= k < j ==> v.deep_view()[k] != s@,
        decreases v.len() - j,
    {
        if str_eq(v[j].as_str(), s) {
            proof {
                assert(v.deep_view()[j as int] == s@);
            }
            return true;
        }
        j += 1;
    }
    false
}

/// Filter and deduplicate link targets into the social-link list.
fn collect_social(links: &Vec<String>) -> (out: Vec<String>)
    ensures
        out.deep_view() == spec_social_links(links.deep_view()),
{
    let ghost all = links.deep_view();
    let mut out: Vec<String> = Vec::new();
    let mut i: usize = 0;
    proof {
        assert(all.skip(0) =~= all);
        assert(out.deep_view() =~= Seq::<Seq<char>>::empty());
    }
    while i < links.len()
        invariant
            i <= links.len(),
            all == links.deep_view(),
            links.deep_view().len() == links.len(),
            spec_collect_social(all, Seq::empty()) == spec_collect_social(
                all.skip(i as int),
                out.deep_view(),
            ),
        decreases links.len() - i,
    {
        let link = &links[i];
        proof {
            assert(all.skip(i as int)[0] == all[i as int]);
            assert(all[i as int] == link@);
            assert(all.skip(i as int).skip(1) =~= all.skip(i as int + 1));
        }
        if is_social_link(link.as_str()) && !contains_string(&out, link.as_str()) {
            let ghost before = out.deep_view();
            out.push(link.clone());
            proof {
                assert(out.deep_view() =~= before.push(link@));
            }
        }
        i += 1;
    }
    proof {
        assert(all.skip(all.len() as int).len() == 0);
    }
    out
}

/// What the HTML parser finds as the first `title` element's text: a
/// function of the document text alone.
pub uninterp spec fn title_text_of(html: Seq<char>) -> Option<Seq<char>>;

/// Relies on scraper: `Html::parse_document`, then the text of the
/// first `title` element, if any; deterministic in the input text.
#[verifier::external_body]
fn html_title_text(html: &str) -> (r: Option<String>)
    ensures
        match r {
            Some(t) => title_text_of(html@) == Some(t@),
            None => title_text_of(html@) is None,
        },
{
    let document = scraper::Html::parse_document(html);
    let selector = scraper::Selector::parse("title").unwrap();
    match document.select(&selector).next() {
        Some(el) => Some(el.text().collect::<String>()),
        None => None,
    }
}

/// What the HTML parser finds as the first meta description content:
/// a function of the document text alone.
pub uninterp spec fn meta_desc_of(html: Seq<char>) -> Option<Seq<char>>;

/// Relies on scraper: `Html::parse_document`, then the `content`
/// attribute of the first `meta[name='description']` element, if any;
/// deterministic in the input text.
#[verifier::external_body]
fn html_meta_description(html: &str) -> (r: Option<String>)
    ensures
        match r {
            Some(d) => meta_desc_of(html@) == Some(d@),
            None => meta_desc_of(html@) is None,
        },
{
    let document = scraper::Html::parse_document(html);
    let selector = scraper::Selector::parse("meta[name='description']").unwrap();
    match document.select(&selector).next() {
        Some(el) => match el.value().attr("content") {
            Some(v) => Some(v.to_string()),
            None => None,
        },
        None => None,
    }
}

/// What the HTML parser finds as the `href` targets of the document's
/// `a[href]` elements, in document order: a function of the document
/// text alone.
pub uninterp spec fn links_of(html: Seq<char>) -> Seq<Seq<char>>;

/// Relies on scraper: `Html::parse_document`, then each `a[href]`
/// element's `href` attribute, in document order; deterministic in the
/// input text.
#[verifier::external_body]
fn html_links(html: &str) -> (r: Vec<String>)
    ensures
        r.deep_view() == links_of(html@),
{
    let document = scraper::Html::parse_document(html);
    let selector = scraper::Selector::parse("a[href]").unwrap();
    let mut out: Vec<String> = Vec::new();
    for element in document.select(&selector) {
        if let Some(href) = element.value().attr("href") {
            out.push(href.to_string());
        }
    }
    out
}

/// The metadata found in one HTML document.
pub struct PageMetadata {
    pub title: Option<String>,
    pub meta_description: Option<String>,
    pub social_links: Vec<String>,
}

/// The mathematical shadow of `PageMetadata`.
#[verifier::ext_equal]
pub struct PageMetadataV {
    pub title: Option<Seq<char>>,
    pub meta_description: Option<Seq<char>>,
    pub social_links: Seq<Seq<char>>,
}

impl DeepView for PageMetadata {
    type V = PageMetadataV;

    open spec fn deep_view(&self) -> PageMetadataV {
        PageMetadataV {
            title: self.title.deep_view(),
            meta_description: self.meta_description.deep_view(),
            social_links: self.social_links.deep_view(),
        }
    }
}

/// The metadata of a document: empty input yields nothing; otherwise
/// the title is trimmed and dropped when blank, the description is
/// dropped when empty, and the social links are filtered and
/// deduplicated in first-seen order.
pub open spec fn spec_page_metadata(html: Seq<char>) -> PageMetadataV {
    if html.len() == 0 {
        PageMetadataV { title: None, meta_description: None, social_links: Seq::empty() }
    } else {
        PageMetadataV {
            title: match title_text_of(html) {
                Some(t) => if spec_trim(t).len() == 0 {
                    None
                } else {
                    Some(spec_trim(t))
                },
                None => None,
            },
            meta_description: match meta_desc_of(html) {
                Some(d) => if d.len() == 0 {
                    None
                } else {
                    Some(d)
                },
                None => None,
            },
            social_links: spec_social_links(links_of(html)),
        }
    }
}

/// Extract the title, meta description and social links of a document.
pub fn extract_html_metadata(html: &str) -> (m: PageMetadata)
    ensures
        m.deep_view() == spec_page_metadata(html@),
{
    if html.is_empty() {
        let m = PageMetadata { title: None, meta_description: None, social_links: Vec::new() };
        proof {
            assert(m.deep_view() =~= spec_page_metadata(html@));
        }
        m
    } else {
        let title = match html_title_text(html) {
            Some(t) => {
                let trimmed = trim_text(t.as_str());
                if trimmed.as_str().is_empty() {
                    None
                } else {
                    Some(trimmed)
                }
            },
            None => None,
        };
        let meta_description = match html_meta_description(html) {
            Some(d) => if d.as_str().is_empty() {
                None
            } else {
                Some(d)
            },
            None => None,
        };
        let raw_links = html_links(html);
        let social_links = collect_social(&raw_links);
        let m = PageMetadata { title, meta_description, social_links };
        proof {
            assert(m.deep_view() =~= spec_page_metadata(html@));
        }
        m
    }
}

} // verus!
