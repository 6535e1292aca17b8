//! Verified decimal formatting.
//!
//! Numbers appear in several textual artifacts of the pipeline: the canonical
//! chart encoding, storage paths, and the human-readable rate labels.  This
//! module defines the mathematical decimal numeral of a natural number and
//! executable formatters proved against it.

use vstd::prelude::*;

verus! {

/// The character of one decimal digit.
pub open spec fn digit_char(d: nat) -> char {
    if d == 0 {
        '0'
    } else if d == 1 {
        '1'
    } else if d == 2 {
        '2'
    } else if d == 3 {
        '3'
    } else if d == 4 {
        '4'
    } else if d == 5 {
        '5'
    } else if d == 6 {
        '6'
    } else if d == 7 {
        '7'
    } else if d == 8 {
        '8'
    } else {
        '9'
    }
}

/// Whether a character is a decimal digit.
pub open spec fn is_digit_char(c: char) -> bool {
    c == '0' || c == '1' || c == '2' || c == '3' || c == '4' || c == '5' || c == '6' || c == '7'
        || c == '8' || c == '9'
}

/// The decimal numeral of `n`, most significant digit first, no leading
/// zeros (the numeral of zero is "0").
pub open spec fn dec_of(n: nat) -> Seq<char>
    decreases n,
{
    if n < 10 {
        seq![digit_char(n)]
    } else {
        dec_of(n / 10).push(digit_char(n % 10))
    }
}

/// Every character of a decimal numeral is a digit.
pub proof fn lemma_dec_of_digits(n: nat)
    ensures
        dec_of(n).len() >= 1,
        forall|i: int| 0 <= i < dec_of(n).len() ==> is_digit_char(#[trigger] dec_of(n)[i]),
    decreases n,
{
    if n >= 10 {
        lemma_dec_of_digits(n / 10);
    }
}

/// Distinct digits have distinct characters.
proof fn lemma_digit_char_injective(a: nat, b: nat)
    requires
        a < 10,
        b < 10,
        digit_char(a) == digit_char(b),
    ensures
        a == b,
{
}

/// The decimal numeral is injective: distinct numbers have distinct
/// numerals.
pub proof fn lemma_dec_of_injective(a: nat, b: nat)
    requires
        dec_of(a) == dec_of(b),
    ensures
        a == b,
    decreases a,
{
    if a < 10 && b < 10 {
        assert(dec_of(a) == seq![digit_char(a)]);
        assert(dec_of(b) == seq![digit_char(b)]);
        assert(dec_of(a)[0] == digit_char(a));
        assert(dec_of(b)[0] == digit_char(b));
        lemma_digit_char_injective(a, b);
    } else if a < 10 && b >= 10 {
        lemma_dec_of_digits(b / 10);
        assert(dec_of(b).len() >= 2);
        assert(dec_of(a).len() == 1);
    } else if a >= 10 && b < 10 {
        lemma_dec_of_digits(a / 10);
        assert(dec_of(a).len() >= 2);
        assert(dec_of(b).len() == 1);
    } else {
        let la = dec_of(a);
        let lb = dec_of(b);
        assert(la.last() == lb.last());
        lemma_digit_char_injective(a % 10, b % 10);
        assert(la.drop_last() =~= dec_of(a / 10)) by {
            assert(la == dec_of(a / 10).push(digit_char(a % 10)));
        }
        assert(lb.drop_last() =~= dec_of(b / 10)) by {
            assert(lb == dec_of(b / 10).push(digit_char(b % 10)));
        }
        lemma_dec_of_injective(a / 10, b / 10);
        assert(a == 10 * (a / 10) + a % 10);
        assert(b == 10 * (b / 10) + b % 10);
    }
}

/// If two numerals are followed by non-digit text and the concatenations
/// agree, the numbers agree and so do the tails.
pub proof fn lemma_dec_of_framed(a: nat, b: nat, ta: Seq<char>, tb: Seq<char>)
    requires
        dec_of(a) + ta == dec_of(b) + tb,
        ta.len() > 0,
        tb.len() > 0,
        !is_digit_char(ta[0]),
        !is_digit_char(tb[0]),
    ensures
        a == b,
        ta == tb,
{
    let la = dec_of(a);
    let lb = dec_of(b);
    lemma_dec_of_digits(a);
    lemma_dec_of_digits(b);
    if la.len() < lb.len() {
        // the character after `la` is non-digit in the left reading and a
        // digit in the right reading
        assert((la + ta)[la.len() as int] == ta[0]);
        assert((lb + tb)[la.len() as int] == lb[la.len() as int]);
        assert(is_digit_char(lb[la.len() as int]));
        assert(false);
    } else if lb.len() < la.len() {
        assert((la + ta)[lb.len() as int] == la[lb.len() as int]);
        assert((lb + tb)[lb.len() as int] == tb[0]);
        assert(is_digit_char(la[lb.len() as int]));
        assert(false);
    } else {
        assert forall|i: int| 0 <= i < la.len() implies la[i] == lb[i] by {
            assert((la + ta)[i] == la[i]);
            assert((lb + tb)[i] == lb[i]);
        }
        assert(la =~= lb);
        lemma_dec_of_injective(a, b);
        assert((la + ta).len() == (lb + tb).len());
        assert(ta.len() == tb.len());
        assert forall|i: int| 0 <= i < ta.len() implies ta[i] == tb[i] by {
            assert((la + ta)[la.len() + i] == ta[i]);
            assert((lb + tb)[lb.len() + i] == tb[i]);
        }
        assert(ta =~= tb);
    }
}

/// The single-character string of one decimal digit.
fn digit_str(d: u64) -> (r: &'static str)
    requires
        d < 10,
    ensures
        r@ =~= seq![digit_char(d as nat)],
{
    proof {
        reveal_strlit("0");
        reveal_strlit("1");
        reveal_strlit("2");
        reveal_strlit("3");
        reveal_strlit("4");
        reveal_strlit("5");
        reveal_strlit("6");
        reveal_strlit("7");
        reveal_strlit("8");
        reveal_strlit("9");
    }
    if d == 0 {
        "0"
    } else if d == 1 {
        "1"
    } else if d == 2 {
        "2"
    } else if d == 3 {
        "3"
    } else if d == 4 {
        "4"
    } else if d == 5 {
        "5"
    } else if d == 6 {
        "6"
    } else if d == 7 {
        "7"
    } else if d == 8 {
        "8"
    } else {
        "9"
    }
}

/// Formats `n` as its decimal numeral.
pub fn u64_to_string(n: u64) -> (r: String)
    ensures
        r@ == dec_of(n as nat),
    decreases n,
{
    if n < 10 {
        String::from_str(digit_str(n))
    } else {
        let mut s = u64_to_string(n / 10);
        s.append(digit_str(n % 10));
        assert(s@ == dec_of((n / 10) as nat) + seq![digit_char((n % 10) as nat)]);
        assert(s@ =~= dec_of(n as nat));
        s
    }
}

/// The one-decimal-digit label of a centirate, e.g. 120 reads "1.2".
/// The value is rounded to the nearest tenth, ties away from zero.
pub open spec fn rate_label(centirate: nat) -> Seq<char> {
    let tenths = (centirate + 5) / 10;
    dec_of(tenths / 10) + seq!['.'] + seq![digit_char(tenths % 10)]
}

/// Formats the playback-rate label of a centirate with exactly one decimal
/// digit.
pub fn format_rate(centirate: u32) -> (r: String)
    ensures
        r@ == rate_label(centirate as nat),
{
    let tenths: u64 = (centirate as u64 + 5) / 10;
    let mut s = u64_to_string(tenths / 10);
    proof {
        reveal_strlit(".");
    }
    s.append(".");
    s.append(digit_str(tenths % 10));
    assert(s@ =~= rate_label(centirate as nat));
    s
}

} // verus!
