//! Small string utilities shared by the encoders.

use vstd::prelude::*;

verus! {

/// Relies on std's `String::push`: appends exactly one character.
#[verifier::external_body]
pub fn push_char(s: &mut String, c: char)
    ensures
        final(s)@ == old(s)@.push(c),
{
    s.push(c);
}

/// Character-for-character string comparison.
pub fn str_eq(a: &str, b: &str) -> (r: bool)
    ensures
        r == (a@ == b@),
{
    let n = a.unicode_len();
    if n != b.unicode_len() {
        proof {
            assert(a@ != b@);
        }
        return false;
    }
    let mut i: usize = 0;
    while i < n
        invariant
            n == a@.len(),
            n == b@.len(),
            i <= n,
            forall|j: int| 0 <= j < i ==> a@[j] == b@[j],
        decreases n - i,
    {
        if a.get_char(i) != b.get_char(i) {
            return false;
        }
        i += 1;
    }
    proof {
        assert(a@ =~= b@);
    }
    true
}

/// The elements of `items` concatenated with `sep` between neighbours.
pub open spec fn spec_join(items: Seq<Seq<char>>, sep: Seq<char>) -> Seq<char>
    decreases items.len(),
{
    if items.len() == 0 {
        Seq::empty()
    } else if items.len() == 1 {
        items[0]
    } else {
        items[0] + sep + spec_join(items.skip(1), sep)
    }
}

pub proof fn lemma_join_snoc(items: Seq<Seq<char>>, sep: Seq<char>, more: Seq<char>)
    ensures
        spec_join(items.push(more), sep) == if items.len() == 0 {
            more
        } else {
            spec_join(items, sep) + sep + more
        },
    decreases items.len(),
{
    if items.len() == 0 {
        assert(items.push(more) =~= seq![more]);
        assert(spec_join(seq![more], sep) == more);
    } else if items.len() == 1 {
        assert(items.push(more)[0] == items[0]);
        assert(items.push(more).skip(1) =~= seq![more]);
        assert(spec_join(seq![more], sep) == more);
        assert(spec_join(items.push(more), sep) == items[0] + sep + more);
    } else {
        assert(items.push(more)[0] == items[0]);
        assert(items.push(more).skip(1) =~= items.skip(1).push(more));
        lemma_join_snoc(items.skip(1), sep, more);
        assert(spec_join(items.push(more), sep) == items[0] + sep + (spec_join(items.skip(1), sep)
            + sep + more));
        assert(items[0] + sep + (spec_join(items.skip(1), sep) + sep + more) =~= (items[0] + sep
            + spec_join(items.skip(1), sep)) + sep + more);
    }
}

/// Join `items` with the separator `sep`.
pub fn join_strings(items: &Vec<String>, sep: &str) -> (r: String)
    ensures
        r@ == spec_join(items.deep_view(), sep@),
{
    let mut out = String::new();
    let mut i: usize = 0;
    while i < items.len()
        invariant
            i <= items.len(),
            out@ == spec_join(items.deep_view().take(i as int), sep@),
        decreases items.len() - i,
    {
        if i > 0 {
            out.append(sep);
        }
        out.append(items[i].as_str());
        proof {
            assert(items.deep_view().take(i as int + 1) =~= items.deep_view().take(
                i as int,
            ).push(items[i as int]@));
            lemma_join_snoc(items.deep_view().take(i as int), sep@, items[i as int]@);
        }
        i += 1;
    }
    proof {
        assert(items.deep_view().take(items.len() as int) =~= items.deep_view());
    }
    out
}

/// How many times the character `c` occurs in `s`.
pub open spec fn spec_count_char(s: Seq<char>, c: char) -> int
    decreases s.len(),
{
    if s.len() == 0 {
        0
    } else {
        spec_count_char(s.drop_last(), c) + if s.last() == c {
            1int
        } else {
            0int
        }
    }
}

pub proof fn lemma_count_char_concat(a: Seq<char>, b: Seq<char>, c: char)
    ensures
        spec_count_char(a + b, c) == spec_count_char(a, c) + spec_count_char(b, c),
    decreases b.len(),
{
    if b.len() == 0 {
        assert(a + b =~= a);
    } else {
        assert((a + b).drop_last() =~= a + b.drop_last());
        assert((a + b).last() == b.last());
        lemma_count_char_concat(a, b.drop_last(), c);
    }
}

/// Text with no line-break characters.
pub open spec fn spec_line_clean(s: Seq<char>) -> bool {
    forall|i: int| 0 <= i < s.len() ==> s[i] != '\n' && s[i] != '\r'
}

pub proof fn lemma_clean_concat(a: Seq<char>, b: Seq<char>)
    requires
        spec_line_clean(a),
        spec_line_clean(b),
    ensures
        spec_line_clean(a + b),
{
    assert forall|i: int| 0 <= i < (a + b).len() implies (a + b)[i] != '\n' && (a + b)[i]
        != '\r' by {
        if i < a.len() {
            assert((a + b)[i] == a[i]);
        } else {
            assert((a + b)[i] == b[i - a.len()]);
        }
    }
}

pub proof fn lemma_join_clean(items: Seq<Seq<char>>, sep: Seq<char>)
    requires
        forall|i: int| 0 <= i < items.len() ==> spec_line_clean(#[trigger] items[i]),
        spec_line_clean(sep),
    ensures
        spec_line_clean(spec_join(items, sep)),
    decreases items.len(),
{
    if items.len() == 0 {
    } else if items.len() == 1 {
        assert(spec_join(items, sep) == items[0]);
    } else {
        assert(forall|i: int|
            0 <= i < items.skip(1).len() ==> spec_line_clean(#[trigger] items.skip(1)[i]));
        lemma_join_clean(items.skip(1), sep);
        lemma_clean_concat(items[0], sep);
        lemma_clean_concat(items[0] + sep, spec_join(items.skip(1), sep));
    }
}

pub proof fn lemma_count_char_absent(s: Seq<char>, c: char)
    requires
        forall|i: int| 0 <= i < s.len() ==> s[i] != c,
    ensures
        spec_count_char(s, c) == 0,
    decreases s.len(),
{
    if s.len() > 0 {
        lemma_count_char_absent(s.drop_last(), c);
    }
}

} // verus!
