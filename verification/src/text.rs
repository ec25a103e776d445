//! Canonical decimal text of register values.
//!
//! Detect matching and device-id rendering compare register values by their
//! textual form. The form is pinned down exactly: the usual decimal digits
//! without leading zeroes, with a leading minus sign for negative values.

use vstd::prelude::*;

verus! {

/// The digit character for one decimal digit.
pub open spec fn digit_char(d: nat) -> char {
    if d == 0 {
        '0'
    } else if d == 1 {
        '1'
    } else if d == 2 {
        '2'
    } else if d == 3 {
        '3'
    } else if d == 4 {
        '4'
    } else if d == 5 {
        '5'
    } else if d == 6 {
        '6'
    } else if d == 7 {
        '7'
    } else if d == 8 {
        '8'
    } else {
        '9'
    }
}

/// Decimal digits of a natural number, most significant first.
pub open spec fn dec_chars(n: nat) -> Seq<char>
    decreases n,
{
    if n < 10 {
        seq![digit_char(n)]
    } else {
        dec_chars(n / 10) + seq![digit_char(n % 10)]
    }
}

/// Decimal text of an integer: digits, with a minus sign when negative.
pub open spec fn int_chars(v: int) -> Seq<char> {
    if v < 0 {
        seq!['-'] + dec_chars((-v) as nat)
    } else {
        dec_chars(v as nat)
    }
}

/// The one-character string for one decimal digit; `d` is taken modulo ten.
fn digit_str(d: u64) -> (s: &'static str)
    ensures
        s@ == seq![digit_char((d % 10) as nat)],
{
    proof {
        reveal_strlit("0");
        reveal_strlit("1");
        reveal_strlit("2");
        reveal_strlit("3");
        reveal_strlit("4");
        reveal_strlit("5");
        reveal_strlit("6");
        reveal_strlit("7");
        reveal_strlit("8");
        reveal_strlit("9");
    }
    match d % 10 {
        0 => "0",
        1 => "1",
        2 => "2",
        3 => "3",
        4 => "4",
        5 => "5",
        6 => "6",
        7 => "7",
        8 => "8",
        _ => "9",
    }
}

/// Decimal digit characters, as a predicate.
pub open spec fn is_decimal_digit(c: char) -> bool {
    c == '0' || c == '1' || c == '2' || c == '3' || c == '4' || c == '5' || c == '6' || c == '7'
        || c == '8' || c == '9'
}

/// Decimal texts hold digit characters alone.
pub proof fn lemma_dec_chars_digits(n: nat)
    ensures
        forall|i: int|
            0 <= i < dec_chars(n).len() ==> is_decimal_digit(#[trigger] dec_chars(n)[i]),
    decreases n,
{
    if n < 10 {
        assert(dec_chars(n)[0] == digit_char(n));
    } else {
        lemma_dec_chars_digits(n / 10);
        assert forall|i: int|
            0 <= i < dec_chars(n).len() implies is_decimal_digit(#[trigger] dec_chars(n)[i]) by {
            if i < dec_chars(n / 10).len() {
                assert(dec_chars(n)[i] == dec_chars(n / 10)[i]);
            } else {
                assert(dec_chars(n)[i] == digit_char(n % 10));
            }
        }
    }
}

/// The decimal text of a byte-sized value is one to three digits long.
pub proof fn lemma_dec_chars_len_u8(n: nat)
    requires
        n <= 255,
    ensures
        1 <= dec_chars(n).len() <= 3,
{
    if n < 10 {
        assert(dec_chars(n).len() == 1);
    } else if n < 100 {
        assert(n / 10 < 10);
        assert(dec_chars(n / 10).len() == 1);
        assert(dec_chars(n).len() == 2);
    } else {
        assert(10 <= n / 10 < 26);
        assert(n / 10 / 10 < 10);
        assert(dec_chars(n / 10 / 10).len() == 1);
        assert(dec_chars(n / 10) == dec_chars(n / 10 / 10) + seq![digit_char((n / 10) % 10)]);
        assert(dec_chars(n / 10).len() == 2);
        assert(dec_chars(n).len() == 3);
    }
}

/// Render a `u64` in decimal.
pub fn u64_text(n: u64) -> (s: String)
    ensures
        s@ == dec_chars(n as nat),
    decreases n,
{
    let d = digit_str(n);
    if n < 10 {
        proof {
            assert(seq![digit_char((n % 10) as nat)] =~= seq![digit_char(n as nat)]);
        }
        d.to_owned()
    } else {
        let mut s = u64_text(n / 10);
        s.append(d);
        proof {
            assert(s@ =~= dec_chars(n as nat));
        }
        s
    }
}

/// Render an `i64` in decimal, minus sign included.
pub fn i64_text(v: i64) -> (s: String)
    ensures
        s@ == int_chars(v as int),
{
    if v < 0 {
        let mag = (-(v as i128)) as u64;
        let mut s = ("-").to_owned();
        let digits = u64_text(mag);
        s.append(digits.as_str());
        proof {
            reveal_strlit("-");
            assert(s@ =~= int_chars(v as int));
        }
        s
    } else {
        u64_text(v as u64)
    }
}

} // verus!
