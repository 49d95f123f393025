//! Decimal and hexadecimal text for machine integers.

use vstd::prelude::*;
use crate::text::{spec_line_clean, lemma_clean_concat};

verus! {

/// The character for the decimal digit `d` (`0 <= d <= 9`).
pub open spec fn spec_digit_char(d: int) -> char {
    ((48 + d) as u8) as char
}

/// Decimal text of a non-negative number, most significant digit first,
/// with no leading zeros (a lone `0` for zero).
pub open spec fn spec_u64_text(n: int) -> Seq<char>
    recommends
        n >= 0,
    decreases n,
{
    if n < 10 {
        seq![spec_digit_char(n)]
    } else {
        spec_u64_text(n / 10).push(spec_digit_char(n % 10))
    }
}

/// Decimal text of a signed number: a `-` sign followed by the
/// magnitude's digits when negative.
pub open spec fn spec_i64_text(n: int) -> Seq<char> {
    if n < 0 {
        seq!['-'] + spec_u64_text(-n)
    } else {
        spec_u64_text(n)
    }
}

/// Exactly `width` decimal digits of `n`, zero-padded on the left;
/// only the lowest `width` digits of `n` appear.
pub open spec fn spec_u64_text_pad(n: int, width: nat) -> Seq<char>
    recommends
        n >= 0,
    decreases width,
{
    if width == 0 {
        Seq::empty()
    } else {
        spec_u64_text_pad(n / 10, (width - 1) as nat).push(spec_digit_char(n % 10))
    }
}

/// Whether `c` is a decimal digit character.
pub open spec fn spec_is_digit(c: char) -> bool {
    '0' <= c && c <= '9'
}

pub proof fn lemma_u64_text_digits(n: int)
    requires
        n >= 0,
    ensures
        spec_u64_text(n).len() >= 1,
        forall|i: int| 0 <= i < spec_u64_text(n).len() ==> spec_is_digit(#[trigger] spec_u64_text(n)[i]),
    decreases n,
{
    if n >= 10 {
        lemma_u64_text_digits(n / 10);
    }
}

pub proof fn lemma_u64_text_pad_digits(n: int, width: nat)
    requires
        n >= 0,
    ensures
        spec_u64_text_pad(n, width).len() == width,
        forall|i: int|
            0 <= i < width ==> spec_is_digit(#[trigger] spec_u64_text_pad(n, width)[i]),
    decreases width,
{
    if width > 0 {
        lemma_u64_text_pad_digits(n / 10, (width - 1) as nat);
    }
}

pub proof fn lemma_u64_text_clean(n: int)
    requires
        n >= 0,
    ensures
        spec_line_clean(spec_u64_text(n)),
        forall|i: int| 0 <= i < spec_u64_text(n).len() ==> #[trigger] spec_u64_text(n)[i] != '.',
{
    lemma_u64_text_digits(n);
    assert forall|i: int| 0 <= i < spec_u64_text(n).len() implies spec_u64_text(n)[i] != '\n'
        && spec_u64_text(n)[i] != '\r' && spec_u64_text(n)[i] != '.' by {
        assert(spec_is_digit(spec_u64_text(n)[i]));
    }
}

pub proof fn lemma_i64_text_clean(n: int)
    ensures
        spec_line_clean(spec_i64_text(n)),
{
    if n < 0 {
        lemma_u64_text_clean(-n);
        lemma_clean_concat(seq!['-'], spec_u64_text(-n));
    } else {
        lemma_u64_text_clean(n);
    }
}

pub proof fn lemma_u64_text_pad_clean(n: int, width: nat)
    requires
        n >= 0,
    ensures
        spec_line_clean(spec_u64_text_pad(n, width)),
{
    lemma_u64_text_pad_digits(n, width);
    assert forall|i: int|
        0 <= i < spec_u64_text_pad(n, width).len() implies spec_u64_text_pad(n, width)[i] != '\n'
        && spec_u64_text_pad(n, width)[i] != '\r' by {
        assert(spec_is_digit(spec_u64_text_pad(n, width)[i]));
    }
}

pub proof fn lemma_digit_char_is_digit(d: int)
    requires
        0 <= d <= 9,
    ensures
        spec_is_digit(spec_digit_char(d)),
{
}

pub fn digit_str(d: u64) -> (r: &'static str)
    requires
        d < 10,
    ensures
        r@ == seq![spec_digit_char(d as int)],
{
    proof {
        reveal_strlit("0");
        reveal_strlit("1");
        reveal_strlit("2");
        reveal_strlit("3");
        reveal_strlit("4");
        reveal_strlit("5");
        reveal_strlit("6");
        reveal_strlit("7");
        reveal_strlit("8");
        reveal_strlit("9");
    }
    match d {
        0 => "0",
        1 => "1",
        2 => "2",
        3 => "3",
        4 => "4",
        5 => "5",
        6 => "6",
        7 => "7",
        8 => "8",
        _ => "9",
    }
}

/// Render `n` in decimal.
pub fn u64_text(n: u64) -> (r: String)
    ensures
        r@ == spec_u64_text(n as int),
    decreases n,
{
    if n < 10 {
        digit_str(n).to_owned()
    } else {
        let mut s = u64_text(n / 10);
        s.append(digit_str(n % 10));
        proof {
            assert(spec_u64_text(n as int) =~= spec_u64_text(n as int / 10) + seq![
                spec_digit_char(n as int % 10),
            ]);
        }
        s
    }
}

/// Render `n` in decimal with a `-` sign when negative.
pub fn i64_text(n: i64) -> (r: String)
    ensures
        r@ == spec_i64_text(n as int),
{
    if n >= 0 {
        u64_text(n as u64)
    } else {
        let mag: u64 = ((-(n + 1)) as u64) + 1;
        let mut s = "-".to_owned();
        s.append(u64_text(mag).as_str());
        proof {
            reveal_strlit("-");
            assert(s@ =~= seq!['-'] + spec_u64_text(mag as int));
        }
        s
    }
}

/// Render the lowest `width` decimal digits of `n`, zero-padded.
pub fn u64_text_pad(n: u64, width: u64) -> (r: String)
    ensures
        r@ == spec_u64_text_pad(n as int, width as nat),
    decreases width,
{
    if width == 0 {
        String::new()
    } else {
        let mut s = u64_text_pad(n / 10, width - 1);
        s.append(digit_str(n % 10));
        proof {
            assert(spec_u64_text_pad(n as int, width as nat) =~= spec_u64_text_pad(
                n as int / 10,
                (width - 1) as nat,
            ) + seq![spec_digit_char(n as int % 10)]);
        }
        s
    }
}

/// The character for the hexadecimal digit `d` (`0 <= d <= 15`),
/// lower case for the letter digits.
pub open spec fn spec_hex_digit_char(d: int) -> char {
    if d < 10 {
        spec_digit_char(d)
    } else {
        ((97 + (d - 10)) as u8) as char
    }
}

/// The hexadecimal digit of `n` at nibble position `i`, counting the
/// most significant nibble of a 64-bit value as position 0.
pub open spec fn spec_hex16_nibble(n: u64, i: int) -> u64 {
    (n >> (((15 - i) * 4) as u64)) & 0xf
}

/// `n` as exactly 16 lower-case hexadecimal digits.
pub open spec fn spec_hex16(n: u64) -> Seq<char> {
    Seq::new(16, |i: int| spec_hex_digit_char(spec_hex16_nibble(n, i) as int))
}

pub fn hex_digit_str(d: u64) -> (r: &'static str)
    requires
        d < 16,
    ensures
        r@ == seq![spec_hex_digit_char(d as int)],
{
    if d < 10 {
        digit_str(d)
    } else {
        proof {
            reveal_strlit("a");
            reveal_strlit("b");
            reveal_strlit("c");
            reveal_strlit("d");
            reveal_strlit("e");
            reveal_strlit("f");
        }
        match d {
            10 => "a",
            11 => "b",
            12 => "c",
            13 => "d",
            14 => "e",
            _ => "f",
        }
    }
}

/// Render `n` as a 16-digit lower-case hexadecimal string.
pub fn hex16_text(n: u64) -> (r: String)
    ensures
        r@ == spec_hex16(n),
{
    let mut s = String::new();
    let mut i: usize = 0;
    while i < 16
        invariant
            i <= 16,
            s@ =~= spec_hex16(n).subrange(0, i as int),
        decreases 16 - i,
    {
        let shift: u64 = (15 - i as u64) * 4;
        let d: u64 = (n >> shift) & 0xf;
        proof {
            assert((n >> shift) & 0xf < 16) by (bit_vector);
        }
        s.append(hex_digit_str(d));
        proof {
            assert(d == spec_hex16_nibble(n, i as int));
            assert(spec_hex16(n).subrange(0, i as int + 1) =~= spec_hex16(n).subrange(
                0,
                i as int,
            ).push(spec_hex_digit_char(d as int)));
        }
        i += 1;
    }
    proof {
        assert(s@ =~= spec_hex16(n));
    }
    s
}

} // verus!
