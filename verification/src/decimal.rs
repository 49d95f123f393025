//! Exact decimal numbers.
//!
//! The upstream record carries its numeric scores as machine floats.
//! Inside the engine a number is held exactly as a sign, an integer
//! mantissa and a decimal scale: the value is `mantissa / 10^scale`,
//! negated when `neg` is set.  Rendering and rounding are then plain
//! integer arithmetic.  Ties round half away from zero, which is the
//! convention this engine fixes for both output formats.

use vstd::prelude::*;
use crate::text::{spec_line_clean, lemma_clean_concat};
use crate::numtext::{
    spec_digit_char, spec_is_digit, spec_u64_text, spec_u64_text_pad, digit_str, u64_text,
    u64_text_pad, lemma_u64_text_digits, lemma_u64_text_pad_digits, lemma_u64_text_clean,
    lemma_u64_text_pad_clean, lemma_digit_char_is_digit,
};

verus! {

/// A decimal number: `(-1)^neg * mantissa / 10^scale`.
#[derive(Clone, Copy, PartialEq, Eq, Structural, Debug)]
pub struct Dec {
    pub neg: bool,
    pub mantissa: u64,
    pub scale: u32,
}

impl Dec {
    /// A scale small enough that `10^scale` fits in a machine word.
    pub open spec fn wf(self) -> bool {
        self.scale <= 18
    }

    /// The number zero, rendered as `0` with no fractional digits.
    pub fn zero() -> (r: Dec)
        ensures
            r == (Dec { neg: false, mantissa: 0, scale: 0 }),
    {
        Dec { neg: false, mantissa: 0, scale: 0 }
    }
}

impl DeepView for Dec {
    type V = Dec;

    open spec fn deep_view(&self) -> Dec {
        *self
    }
}

pub open spec fn spec_pow10(e: nat) -> int
    decreases e,
{
    if e == 0 {
        1
    } else {
        10 * spec_pow10((e - 1) as nat)
    }
}

pub proof fn lemma_pow10_pos(e: nat)
    ensures
        spec_pow10(e) >= 1,
    decreases e,
{
    if e > 0 {
        lemma_pow10_pos((e - 1) as nat);
    }
}

pub proof fn lemma_pow10_18()
    ensures
        spec_pow10(18) == 1000000000000000000,
{
    assert(spec_pow10(0) == 1);
    assert(spec_pow10(1) == 10);
    assert(spec_pow10(2) == 100);
    assert(spec_pow10(3) == 1000);
    assert(spec_pow10(4) == 10000);
    assert(spec_pow10(5) == 100000);
    assert(spec_pow10(6) == 1000000);
    assert(spec_pow10(7) == 10000000);
    assert(spec_pow10(8) == 100000000);
    assert(spec_pow10(9) == 1000000000);
    assert(spec_pow10(10) == 10000000000);
    assert(spec_pow10(11) == 100000000000);
    assert(spec_pow10(12) == 1000000000000);
    assert(spec_pow10(13) == 10000000000000);
    assert(spec_pow10(14) == 100000000000000);
    assert(spec_pow10(15) == 1000000000000000);
    assert(spec_pow10(16) == 10000000000000000);
    assert(spec_pow10(17) == 100000000000000000);
    assert(spec_pow10(18) == 1000000000000000000);
}

pub proof fn lemma_pow10_increasing(a: nat, b: nat)
    requires
        a <= b,
    ensures
        spec_pow10(a) <= spec_pow10(b),
    decreases b,
{
    if a < b {
        lemma_pow10_increasing(a, (b - 1) as nat);
        lemma_pow10_pos((b - 1) as nat);
    }
}

/// `10^e` for small exponents.
pub fn pow10_u64(e: u32) -> (r: u64)
    requires
        e <= 18,
    ensures
        r as int == spec_pow10(e as nat),
{
    let mut r: u64 = 1;
    let mut i: u32 = 0;
    while i < e
        invariant
            i <= e <= 18,
            r as int == spec_pow10(i as nat),
        decreases e - i,
    {
        proof {
            lemma_pow10_increasing(i as nat, 17);
            lemma_pow10_18();
            assert(10 * spec_pow10(17) == spec_pow10(18));
        }
        r = r * 10;
        i = i + 1;
    }
    r
}

/// The sign prefix: `-` when negative, nothing otherwise.
pub open spec fn spec_sign_text(neg: bool) -> Seq<char> {
    if neg {
        seq!['-']
    } else {
        Seq::empty()
    }
}

fn sign_string(neg: bool) -> (r: String)
    ensures
        r@ == spec_sign_text(neg),
{
    if neg {
        let s = "-".to_owned();
        proof {
            reveal_strlit("-");
            assert(s@ =~= seq!['-']);
        }
        s
    } else {
        String::new()
    }
}

/// Plain decimal text of `d`: integer part, and when the scale is
/// positive, a point and exactly `scale` fractional digits.
pub open spec fn spec_dec_display(d: Dec) -> Seq<char> {
    if d.scale == 0 {
        spec_sign_text(d.neg) + spec_u64_text(d.mantissa as int)
    } else {
        spec_sign_text(d.neg) + spec_u64_text(d.mantissa as int / spec_pow10(d.scale as nat))
            + seq!['.'] + spec_u64_text_pad(
            d.mantissa as int % spec_pow10(d.scale as nat),
            d.scale as nat,
        )
    }
}

/// Render `d` as plain decimal text.
pub fn dec_display(d: Dec) -> (r: String)
    requires
        d.wf(),
    ensures
        r@ == spec_dec_display(d),
{
    let mut out = sign_string(d.neg);
    if d.scale == 0 {
        out.append(u64_text(d.mantissa).as_str());
    } else {
        let p = pow10_u64(d.scale);
        proof {
            lemma_pow10_pos(d.scale as nat);
        }
        out.append(u64_text(d.mantissa / p).as_str());
        out.append(".");
        out.append(u64_text_pad(d.mantissa % p, d.scale as u64).as_str());
        proof {
            reveal_strlit(".");
            assert(out@ =~= spec_dec_display(d));
        }
    }
    out
}

/// `m / p` rounded to the nearest integer, ties away from zero.
pub open spec fn spec_round_half_up(m: int, p: int) -> int {
    if 2 * (m % p) >= p {
        m / p + 1
    } else {
        m / p
    }
}

/// The value of `d` scaled to tenths and rounded to an integer number
/// of tenths, ties away from zero.
pub open spec fn spec_fixed1_scaled(d: Dec) -> int {
    if d.scale == 0 {
        d.mantissa * 10
    } else {
        spec_round_half_up(d.mantissa as int, spec_pow10((d.scale - 1) as nat))
    }
}

/// `d` rendered with exactly one fractional digit.
pub open spec fn spec_dec_fixed1(d: Dec) -> Seq<char> {
    spec_sign_text(d.neg) + spec_u64_text(spec_fixed1_scaled(d) / 10) + seq!['.'] + seq![
        spec_digit_char(spec_fixed1_scaled(d) % 10),
    ]
}

/// Render `d` with exactly one fractional digit, ties away from zero.
pub fn dec_fixed1(d: Dec) -> (r: String)
    requires
        d.wf(),
    ensures
        r@ == spec_dec_fixed1(d),
{
    let mut out = sign_string(d.neg);
    if d.scale == 0 {
        out.append(u64_text(d.mantissa).as_str());
        out.append(".0");
        proof {
            reveal_strlit(".0");
            assert(d.mantissa * 10 / 10 == d.mantissa as int) by (nonlinear_arith);
            assert(d.mantissa * 10 % 10 == 0) by (nonlinear_arith);
            assert(spec_digit_char(0) == '0');
            assert(out@ =~= spec_dec_fixed1(d));
        }
    } else {
        let p = pow10_u64(d.scale - 1);
        proof {
            lemma_pow10_pos((d.scale - 1) as nat);
        }
        let q0 = d.mantissa / p;
        let rest = d.mantissa % p;
        let q = if rest >= p - rest {
            proof {
                assert(q0 < u64::MAX) by {
                    assert(2 * (rest as int) >= p);
                    assert(rest < p);
                    assert(p >= 2);
                    assert(d.mantissa as int / (p as int) <= d.mantissa as int / 2) by (nonlinear_arith)
                        requires
                            p >= 2,
                            d.mantissa >= 0,
                    ;
                }
            }
            q0 + 1
        } else {
            q0
        };
        proof {
            assert(q as int == spec_fixed1_scaled(d));
        }
        out.append(u64_text(q / 10).as_str());
        out.append(".");
        out.append(digit_str(q % 10));
        proof {
            reveal_strlit(".");
            assert(out@ =~= spec_dec_fixed1(d));
        }
    }
    out
}

pub proof fn lemma_sign_clean(neg: bool)
    ensures
        spec_line_clean(spec_sign_text(neg)),
        forall|j: int|
            0 <= j < spec_sign_text(neg).len() ==> #[trigger] spec_sign_text(neg)[j] != '.',
{
}

/// The plain decimal text holds no line break.
pub proof fn lemma_dec_display_clean(d: Dec)
    ensures
        spec_line_clean(spec_dec_display(d)),
{
    lemma_sign_clean(d.neg);
    if d.scale == 0 {
        lemma_u64_text_clean(d.mantissa as int);
        lemma_clean_concat(spec_sign_text(d.neg), spec_u64_text(d.mantissa as int));
    } else {
        lemma_pow10_pos(d.scale as nat);
        let p = spec_pow10(d.scale as nat);
        lemma_u64_text_clean(d.mantissa as int / p);
        lemma_u64_text_pad_clean(d.mantissa as int % p, d.scale as nat);
        lemma_clean_concat(spec_sign_text(d.neg), spec_u64_text(d.mantissa as int / p));
        lemma_clean_concat(
            spec_sign_text(d.neg) + spec_u64_text(d.mantissa as int / p),
            seq!['.'],
        );
        lemma_clean_concat(
            spec_sign_text(d.neg) + spec_u64_text(d.mantissa as int / p) + seq!['.'],
            spec_u64_text_pad(d.mantissa as int % p, d.scale as nat),
        );
    }
}

pub proof fn lemma_fixed1_scaled_nonneg(d: Dec)
    ensures
        spec_fixed1_scaled(d) >= 0,
{
    if d.scale == 0 {
        assert(d.mantissa * 10 >= 0) by (nonlinear_arith)
            requires
                d.mantissa >= 0,
        ;
    } else {
        lemma_pow10_pos((d.scale - 1) as nat);
    }
}

/// The one-fractional-digit rendering ends in a point and a single
/// digit, and holds no other point and no line break.
pub proof fn lemma_fixed1_shape(d: Dec)
    ensures
        ({
            let t = spec_dec_fixed1(d);
            &&& t.len() >= 3
            &&& t[t.len() - 2] == '.'
            &&& spec_is_digit(t[t.len() - 1])
            &&& forall|j: int| 0 <= j < t.len() - 2 ==> #[trigger] t[j] != '.'
            &&& spec_line_clean(t)
            &&& forall|j: int|
                0 <= j < t.len() ==> #[trigger] t[j] == '-' || t[j] == '.' || spec_is_digit(t[j])
        }),
{
    let q = spec_fixed1_scaled(d);
    lemma_fixed1_scaled_nonneg(d);
    let sign = spec_sign_text(d.neg);
    let whole = spec_u64_text(q / 10);
    lemma_u64_text_digits(q / 10);
    lemma_u64_text_clean(q / 10);
    lemma_sign_clean(d.neg);
    lemma_digit_char_is_digit(q % 10);
    let t = spec_dec_fixed1(d);
    assert(t =~= sign + whole + seq!['.'] + seq![spec_digit_char(q % 10)]);
    assert(t.len() == sign.len() + whole.len() + 2);
    assert(t[t.len() - 1] == spec_digit_char(q % 10));
    assert(t[t.len() - 2] == '.');
    assert forall|j: int| 0 <= j < t.len() - 2 implies #[trigger] t[j] != '.' by {
        if j < sign.len() {
            assert(t[j] == sign[j]);
        } else {
            assert(t[j] == whole[j - sign.len()]);
        }
    }
    assert forall|j: int|
        0 <= j < t.len() implies t[j] != '\n' && t[j] != '\r' && (t[j] == '-' || t[j] == '.'
        || spec_is_digit(t[j])) by {
        if j < sign.len() {
            assert(t[j] == sign[j]);
        } else if j < sign.len() + whole.len() {
            assert(t[j] == whole[j - sign.len()]);
        } else if j == t.len() - 2 {
        } else {
            assert(t[j] == spec_digit_char(q % 10));
            assert(spec_is_digit(t[j]));
        }
    }
}

/// `d` rounded, ties away from zero, so that its scale is at most 2.
pub open spec fn spec_round2(d: Dec) -> Dec {
    if d.scale <= 2 {
        d
    } else {
        Dec {
            neg: d.neg,
            mantissa: spec_round_half_up(d.mantissa as int, spec_pow10((d.scale - 2) as nat)) as u64,
            scale: 2,
        }
    }
}

/// A rounded number never gains fractional digits.
pub proof fn lemma_round2_scale(d: Dec)
    ensures
        spec_round2(d).scale <= 2,
        spec_round2(d).wf(),
{
}

/// Round `d` to at most two fractional digits, ties away from zero.
pub fn dec_round2(d: Dec) -> (r: Dec)
    requires
        d.wf(),
    ensures
        r == spec_round2(d),
        r.wf(),
{
    if d.scale <= 2 {
        d
    } else {
        let p = pow10_u64(d.scale - 2);
        proof {
            lemma_pow10_pos((d.scale - 2) as nat);
        }
        let q0 = d.mantissa / p;
        let rest = d.mantissa % p;
        let q = if rest >= p - rest {
            proof {
                assert(q0 < u64::MAX) by {
                    assert(p >= 2);
                    assert(d.mantissa as int / (p as int) <= d.mantissa as int / 2) by (nonlinear_arith)
                        requires
                            p >= 2,
                            d.mantissa >= 0,
                    ;
                }
            }
            q0 + 1
        } else {
            q0
        };
        Dec { neg: d.neg, mantissa: q, scale: 2 }
    }
}

/// `d` with trailing fractional zeros removed.
pub open spec fn spec_dec_strip(d: Dec) -> Dec
    decreases d.scale,
{
    if d.scale == 0 || d.mantissa as int % 10 != 0 {
        d
    } else {
        spec_dec_strip(
            Dec { neg: d.neg, mantissa: (d.mantissa as int / 10) as u64, scale: (d.scale - 1) as u32 },
        )
    }
}

pub proof fn lemma_dec_strip_wf(d: Dec)
    requires
        d.wf(),
    ensures
        spec_dec_strip(d).wf(),
        spec_dec_strip(d).neg == d.neg,
    decreases d.scale,
{
    if !(d.scale == 0 || d.mantissa as int % 10 != 0) {
        lemma_dec_strip_wf(
            Dec { neg: d.neg, mantissa: (d.mantissa as int / 10) as u64, scale: (d.scale - 1) as u32 },
        );
    }
}

/// Decimal text of `d` as a JSON number: trailing fractional zeros are
/// dropped, and a whole number keeps a single `.0`.
pub open spec fn spec_dec_json_text(d: Dec) -> Seq<char> {
    let s = spec_dec_strip(d);
    if s.scale == 0 {
        spec_sign_text(s.neg) + spec_u64_text(s.mantissa as int) + seq!['.', '0']
    } else {
        spec_dec_display(s)
    }
}

/// Render `d` as a JSON number.
pub fn dec_json_text(d: Dec) -> (r: String)
    requires
        d.wf(),
    ensures
        r@ == spec_dec_json_text(d),
{
    let mut cur = d;
    while cur.scale > 0 && cur.mantissa % 10 == 0
        invariant
            cur.wf(),
            spec_dec_strip(cur) == spec_dec_strip(d),
        decreases cur.scale,
    {
        cur = Dec { neg: cur.neg, mantissa: cur.mantissa / 10, scale: cur.scale - 1 };
    }
    proof {
        assert(spec_dec_strip(cur) == cur);
    }
    if cur.scale == 0 {
        let mut out = sign_string(cur.neg);
        out.append(u64_text(cur.mantissa).as_str());
        out.append(".0");
        proof {
            reveal_strlit(".0");
            assert(out@ =~= spec_dec_json_text(d));
        }
        out
    } else {
        dec_display(cur)
    }
}


/// Every character is a decimal digit.
pub open spec fn spec_all_digits(s: Seq<char>) -> bool {
    forall|i: int| 0 <= i < s.len() ==> spec_is_digit(#[trigger] s[i])
}

/// The number a digit string denotes, most significant digit first.
pub open spec fn spec_digits_val(s: Seq<char>) -> int
    decreases s.len(),
{
    if s.len() == 0 {
        0
    } else {
        spec_digits_val(s.drop_last()) * 10 + (s.last() as int - 48)
    }
}

pub proof fn lemma_digits_val_nonneg(s: Seq<char>)
    requires
        spec_all_digits(s),
    ensures
        spec_digits_val(s) >= 0,
    decreases s.len(),
{
    if s.len() > 0 {
        assert(spec_all_digits(s.drop_last()));
        lemma_digits_val_nonneg(s.drop_last());
        assert(spec_is_digit(s.last()));
        assert(spec_digits_val(s.drop_last()) * 10 >= 0) by (nonlinear_arith)
            requires
                spec_digits_val(s.drop_last()) >= 0,
        ;
    }
}

/// Appending digits never shrinks the denoted number.
pub proof fn lemma_digits_val_extend(t: Seq<char>, rest: Seq<char>)
    requires
        spec_all_digits(t),
        spec_all_digits(rest),
    ensures
        spec_digits_val(t + rest) >= spec_digits_val(t),
    decreases rest.len(),
{
    if rest.len() == 0 {
        assert(t + rest =~= t);
    } else {
        assert(spec_all_digits(rest.drop_last()));
        lemma_digits_val_extend(t, rest.drop_last());
        assert((t + rest).drop_last() =~= t + rest.drop_last());
        assert((t + rest).last() == rest.last());
        assert(spec_is_digit(rest.last()));
        lemma_digits_val_nonneg(t);
        assert(spec_all_digits(t + rest.drop_last()));
        lemma_digits_val_nonneg(t + rest.drop_last());
        assert(spec_digits_val(t + rest.drop_last()) * 10 >= spec_digits_val(t)) by (
        nonlinear_arith)
            requires
                spec_digits_val(t + rest.drop_last()) >= spec_digits_val(t),
                spec_digits_val(t) >= 0,
        ;
    }
}

/// The position of the first point in `s`, or its length when none.
pub open spec fn spec_dot_idx(s: Seq<char>) -> int
    decreases s.len(),
{
    if s.len() == 0 {
        0
    } else if s[0] == '.' {
        0
    } else {
        1 + spec_dot_idx(s.skip(1))
    }
}

pub proof fn lemma_dot_idx(s: Seq<char>)
    ensures
        0 <= spec_dot_idx(s) <= s.len(),
        spec_dot_idx(s) < s.len() ==> s[spec_dot_idx(s)] == '.',
        forall|j: int| 0 <= j < spec_dot_idx(s) ==> s[j] != '.',
    decreases s.len(),
{
    if s.len() > 0 && s[0] != '.' {
        lemma_dot_idx(s.skip(1));
        assert forall|j: int| 0 <= j < spec_dot_idx(s) implies s[j] != '.' by {
            if j > 0 {
                assert(s.skip(1)[j - 1] == s[j]);
            }
        }
        if spec_dot_idx(s) < s.len() {
            assert(s.skip(1)[spec_dot_idx(s) - 1] == s[spec_dot_idx(s)]);
        }
    }
}

/// The sign of decimal-number text.
pub open spec fn spec_dec_neg(s: Seq<char>) -> bool {
    s.len() > 0 && s[0] == '-'
}

/// Decimal-number text without its sign.
pub open spec fn spec_dec_body(s: Seq<char>) -> Seq<char> {
    if spec_dec_neg(s) {
        s.skip(1)
    } else {
        s
    }
}

/// The digits of decimal-number text, the point removed.
pub open spec fn spec_dec_digits(s: Seq<char>) -> Seq<char> {
    if spec_dot_idx(spec_dec_body(s)) == spec_dec_body(s).len() {
        spec_dec_body(s)
    } else {
        spec_dec_body(s).subrange(0, spec_dot_idx(spec_dec_body(s))) + spec_dec_body(s).subrange(
            spec_dot_idx(spec_dec_body(s)) + 1,
            spec_dec_body(s).len() as int,
        )
    }
}

/// The number of fractional digits of decimal-number text.
pub open spec fn spec_dec_scale_of(s: Seq<char>) -> int {
    if spec_dot_idx(spec_dec_body(s)) == spec_dec_body(s).len() {
        0
    } else {
        spec_dec_body(s).len() - spec_dot_idx(spec_dec_body(s)) - 1
    }
}

/// Whether `s` is decimal-number text this type can hold: an optional
/// minus sign, digits, and optionally a point followed by one to
/// eighteen digits, the digits together fitting a machine word.
pub open spec fn spec_dec_text_valid(s: Seq<char>) -> bool {
    &&& spec_dot_idx(spec_dec_body(s)) > 0
    &&& (spec_dot_idx(spec_dec_body(s)) < spec_dec_body(s).len() ==> spec_dec_scale_of(s) > 0)
    &&& spec_dec_scale_of(s) <= 18
    &&& spec_all_digits(spec_dec_digits(s))
    &&& spec_digits_val(spec_dec_digits(s)) <= u64::MAX
}

/// The number that valid decimal text denotes.
pub open spec fn spec_dec_of_text(s: Seq<char>) -> Dec {
    Dec {
        neg: spec_dec_neg(s),
        mantissa: spec_digits_val(spec_dec_digits(s)) as u64,
        scale: spec_dec_scale_of(s) as u32,
    }
}

proof fn lemma_mul10_gt(m: int, dv: int, cap: int)
    requires
        0 <= dv <= 9,
        cap >= 0,
        m > (cap - dv) / 10,
    ensures
        m * 10 + dv > cap,
{
    assert(m * 10 + dv > cap) by (nonlinear_arith)
        requires
            0 <= dv <= 9,
            cap >= 0,
            m > (cap - dv) / 10,
    ;
}

proof fn lemma_mul10_le(m: int, dv: int, cap: int)
    requires
        0 <= dv <= 9,
        cap >= 0,
        0 <= m <= (cap - dv) / 10,
    ensures
        m * 10 + dv <= cap,
{
    assert(m * 10 + dv <= cap) by (nonlinear_arith)
        requires
            0 <= dv <= 9,
            cap >= 0,
            0 <= m <= (cap - dv) / 10,
    ;
}

/// Parse decimal-number text: an optional minus sign, digits, and
/// optionally a point followed by one to eighteen digits.  Text of any
/// other shape — exponents, other symbols, more fractional digits, or
/// digits that overflow a machine word — yields nothing, exactly as
/// the contract states.
#[verifier::rlimit(100)]
pub fn dec_parse(s: &str) -> (r: Option<Dec>)
    ensures
        match r {
            Some(d) => spec_dec_text_valid(s@) && d == spec_dec_of_text(s@) && d.wf(),
            None => !spec_dec_text_valid(s@),
        },
{
    let n = s.unicode_len();
    let neg = n > 0 && s.get_char(0) == '-';
    let off: usize = if neg {
        1
    } else {
        0
    };
    let ghost body = spec_dec_body(s@);
    proof {
        assert(neg == spec_dec_neg(s@));
        assert(body =~= s@.subrange(off as int, n as int));
        lemma_dot_idx(body);
    }
    let mut i: usize = off;
    let mut m: u64 = 0;
    proof {
        assert(s@.subrange(off as int, off as int) =~= Seq::<char>::empty());
    }
    while i < n && s.get_char(i) != '.'
        invariant
            n == s@.len(),
            off <= i <= n,
            off <= 1,
            body == spec_dec_body(s@),
            body =~= s@.subrange(off as int, n as int),
            neg == spec_dec_neg(s@),
            forall|j: int| off <= j < i ==> spec_is_digit(#[trigger] s@[j]) && s@[j] != '.',
            m as int == spec_digits_val(s@.subrange(off as int, i as int)),
        decreases n - i,
    {
        let c = s.get_char(i);
        let ghost k = i - off;
        proof {
            lemma_dot_idx(body);
            assert(body[k as int] == s@[i as int]);
            assert forall|j: int| 0 <= j < k implies body[j] != '.' by {
                assert(body[j] == s@[off + j]);
            }
            if spec_dot_idx(body) < k {
                assert(body[spec_dot_idx(body)] != '.');
                assert(false);
            }
            if spec_dot_idx(body) == k && spec_dot_idx(body) < body.len() {
                assert(body[spec_dot_idx(body)] == '.');
            }
            assert(spec_dot_idx(body) > k);
        }
        if !(c >= '0' && c <= '9') {
            proof {
                if spec_dec_text_valid(s@) {
                    if spec_dot_idx(body) == body.len() {
                        assert(spec_dec_digits(s@) == body);
                        assert(spec_is_digit(spec_dec_digits(s@)[k as int]));
                    } else {
                        assert(spec_dec_digits(s@)[k as int] == body.subrange(
                            0,
                            spec_dot_idx(body),
                        )[k as int]);
                        assert(spec_is_digit(spec_dec_digits(s@)[k as int]));
                    }
                    assert(false);
                }
            }
            return None;
        }
        let dv: u64 = (c as u32 as u64) - 48;
        let ghost scanned = s@.subrange(off as int, i as int);
        let ghost scanned1 = s@.subrange(off as int, i as int + 1);
        proof {
            assert(scanned1.drop_last() =~= scanned);
            assert(scanned1.last() == s@[i as int]);
            assert(spec_digits_val(scanned1) == m as int * 10 + dv);
        }
        if m > (u64::MAX - dv) / 10 {
            proof {
                lemma_mul10_gt(m as int, dv as int, u64::MAX as int);
                if spec_dec_text_valid(s@) {
                    let digits = spec_dec_digits(s@);
                    assert(spec_all_digits(digits));
                    assert(scanned1 =~= body.subrange(0, k + 1));
                    assert(k + 1 <= spec_dot_idx(body));
                    if spec_dot_idx(body) == body.len() {
                        assert(digits == body);
                    } else {
                        assert(digits =~= body.subrange(0, spec_dot_idx(body)) + body.subrange(
                            spec_dot_idx(body) + 1,
                            body.len() as int,
                        ));
                    }
                    assert(scanned1 =~= digits.subrange(0, k + 1));
                    assert(digits =~= scanned1 + digits.skip(k + 1));
                    assert(spec_all_digits(scanned1));
                    assert(spec_all_digits(digits.skip(k + 1)));
                    lemma_digits_val_extend(scanned1, digits.skip(k + 1));
                    assert(spec_digits_val(digits) > u64::MAX);
                    assert(false);
                }
            }
            return None;
        }
        proof {
            lemma_mul10_le(m as int, dv as int, u64::MAX as int);
        }
        m = m * 10 + dv;
        i += 1;
    }
    if i == n {
        if i == off {
            proof {
                assert(body.len() == 0);
                assert(spec_dot_idx(body) == 0);
            }
            return None;
        }
        proof {
            assert forall|j: int| 0 <= j < body.len() implies body[j] != '.' by {
                assert(body[j] == s@[off + j]);
            }
            if spec_dot_idx(body) < body.len() {
                assert(body[spec_dot_idx(body)] == '.');
                assert(false);
            }
            assert(spec_dec_digits(s@) == body);
            assert(body =~= s@.subrange(off as int, i as int));
            assert forall|j: int|
                0 <= j < spec_dec_digits(s@).len() implies spec_is_digit(
                #[trigger] spec_dec_digits(s@)[j]) by {
                assert(body[j] == s@[off + j]);
            }
            assert(spec_dec_text_valid(s@));
            assert(spec_dec_of_text(s@) == Dec { neg, mantissa: m, scale: 0u32 });
        }
        return Some(Dec { neg, mantissa: m, scale: 0 });
    }
    let ghost d = (i - off) as int;
    proof {
        assert(body[d] == s@[i as int]);
        assert forall|j: int| 0 <= j < d implies body[j] != '.' by {
            assert(body[j] == s@[off + j]);
        }
        if spec_dot_idx(body) < d {
            assert(body[spec_dot_idx(body)] != '.');
            assert(false);
        }
        if spec_dot_idx(body) > d {
            assert(body[d] != '.');
            assert(false);
        }
        assert(spec_dot_idx(body) == d);
    }
    if i == off {
        proof {
            assert(spec_dot_idx(body) == 0);
        }
        return None;
    }
    let mut j: usize = i + 1;
    proof {
        assert(s@.subrange(i as int + 1, i as int + 1) =~= Seq::<char>::empty());
        assert(s@.subrange(off as int, i as int) + s@.subrange(i as int + 1, i as int + 1) =~= s@
            .subrange(off as int, i as int));
    }
    while j < n
        invariant
            n == s@.len(),
            off <= 1,
            off < i < j <= n,
            i < n,
            body == spec_dec_body(s@),
            body =~= s@.subrange(off as int, n as int),
            neg == spec_dec_neg(s@),
            d == i - off,
            spec_dot_idx(body) == d,
            j - i - 1 <= 18,
            forall|t: int| off <= t < i ==> spec_is_digit(#[trigger] s@[t]),
            forall|t: int| i < t < j ==> spec_is_digit(#[trigger] s@[t]),
            m as int == spec_digits_val(
                s@.subrange(off as int, i as int) + s@.subrange(i as int + 1, j as int),
            ),
        decreases n - j,
    {
        let c = s.get_char(j);
        let ghost t = (j - i - 1) as int;
        proof {
            lemma_dot_idx(body);
            assert(body[d + 1 + t] == s@[j as int]);
        }
        if !(c >= '0' && c <= '9') {
            proof {
                if spec_dec_text_valid(s@) {
                    let digits = spec_dec_digits(s@);
                    assert(digits =~= body.subrange(0, d) + body.subrange(
                        d + 1,
                        body.len() as int,
                    ));
                    assert(digits[d + t] == body.subrange(d + 1, body.len() as int)[t]);
                    assert(digits[d + t] == body[d + 1 + t]);
                    assert(spec_is_digit(digits[d + t]));
                    assert(false);
                }
            }
            return None;
        }
        if j - i - 1 >= 18 {
            proof {
                if spec_dec_text_valid(s@) {
                    assert(spec_dec_scale_of(s@) == body.len() - d - 1);
                    assert(body.len() - d - 1 >= 19);
                    assert(false);
                }
            }
            return None;
        }
        let dv: u64 = (c as u32 as u64) - 48;
        let ghost scanned = s@.subrange(off as int, i as int) + s@.subrange(
            i as int + 1,
            j as int,
        );
        let ghost scanned1 = s@.subrange(off as int, i as int) + s@.subrange(
            i as int + 1,
            j as int + 1,
        );
        proof {
            assert(scanned1.drop_last() =~= scanned);
            assert(scanned1.last() == s@[j as int]);
            assert(spec_digits_val(scanned1) == m as int * 10 + dv);
        }
        if m > (u64::MAX - dv) / 10 {
            proof {
                lemma_mul10_gt(m as int, dv as int, u64::MAX as int);
                if spec_dec_text_valid(s@) {
                    let digits = spec_dec_digits(s@);
                    assert(spec_all_digits(digits));
                    assert(digits =~= body.subrange(0, d) + body.subrange(
                        d + 1,
                        body.len() as int,
                    ));
                    assert(scanned1 =~= digits.subrange(0, d + t + 1));
                    assert(digits =~= scanned1 + digits.skip(d + t + 1));
                    assert(spec_all_digits(scanned1));
                    assert(spec_all_digits(digits.skip(d + t + 1)));
                    lemma_digits_val_extend(scanned1, digits.skip(d + t + 1));
                    assert(spec_digits_val(digits) > u64::MAX);
                    assert(false);
                }
            }
            return None;
        }
        proof {
            lemma_mul10_le(m as int, dv as int, u64::MAX as int);
        }
        m = m * 10 + dv;
        j += 1;
    }
    if j == i + 1 {
        proof {
            assert(spec_dot_idx(body) < body.len());
            assert(spec_dec_scale_of(s@) == body.len() - d - 1);
            assert(body.len() == n - off);
            assert(spec_dec_scale_of(s@) == 0);
        }
        return None;
    }
    let scale: u32 = ((j - i) as u32) - 1;
    proof {
        let digits = spec_dec_digits(s@);
        assert(digits =~= body.subrange(0, d) + body.subrange(d + 1, body.len() as int));
        assert(body.subrange(0, d) =~= s@.subrange(off as int, i as int));
        assert(body.subrange(d + 1, body.len() as int) =~= s@.subrange(i as int + 1, n as int));
        assert(digits =~= s@.subrange(off as int, i as int) + s@.subrange(i as int + 1, n as int));
        assert(m as int == spec_digits_val(digits));
        assert forall|q: int| 0 <= q < digits.len() implies spec_is_digit(#[trigger] digits[q]) by {
            if q < d {
                assert(digits[q] == s@[off + q]);
            } else {
                assert(digits[q] == s@[i + 1 + (q - d)]);
            }
        }
        assert(spec_dec_scale_of(s@) == body.len() - d - 1);
        assert(spec_dec_scale_of(s@) == scale as int);
        assert(spec_dec_text_valid(s@));
        assert(spec_dec_of_text(s@) == Dec { neg, mantissa: m, scale });
    }
    Some(Dec { neg, mantissa: m, scale })
}

} // verus!
