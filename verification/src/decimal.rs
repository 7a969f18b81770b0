//! Decimal notation: the number that a run of digits denotes, and the digits
//! that denote a number.

use crate::chars::{all_in, is_digit, CharClass};
use vstd::prelude::*;
use vstd::std_specs::iter::IteratorSpec;

verus! {

/// The value of one decimal digit.
pub open spec fn digit_value(c: char) -> nat {
    (c as int - '0' as int) as nat
}

/// The decimal digit of a value below ten.
pub open spec fn digit_char(d: nat) -> char {
    ('0' as int + d) as char
}

/// The number that `digits` denotes in decimal notation, most significant
/// digit first. Zero for the empty sequence.
pub open spec fn decimal_value(digits: Seq<char>) -> nat
    decreases digits.len(),
{
    if digits.len() == 0 {
        0
    } else {
        10 * decimal_value(digits.drop_last()) + digit_value(digits.last())
    }
}

/// The decimal notation of `n`, without leading zeros.
pub open spec fn decimal_text(n: nat) -> Seq<char>
    decreases n,
{
    if n < 10 {
        seq![digit_char(n)]
    } else {
        decimal_text(n / 10).push(digit_char(n % 10))
    }
}

/// A digit and its value determine each other.
pub proof fn lemma_digit_char(d: nat)
    requires
        d < 10,
    ensures
        is_digit(digit_char(d)),
        digit_value(digit_char(d)) == d,
{
}

/// The decimal notation of a number is a non-empty run of digits that
/// denotes the number.
pub proof fn lemma_decimal_text(n: nat)
    ensures
        decimal_text(n).len() > 0,
        all_in(decimal_text(n), CharClass::Digit),
        decimal_value(decimal_text(n)) == n,
    decreases n,
{
    lemma_digit_char(n % 10);
    if n < 10 {
        assert(decimal_value(decimal_text(n).drop_last()) == 0);
    } else {
        let front = decimal_text(n / 10);
        lemma_decimal_text(n / 10);
        assert(front.push(digit_char(n % 10)).drop_last() == front);
    }
}

/// Reading more digits never lowers the value.
pub proof fn lemma_decimal_value_grows(digits: Seq<char>, k: int)
    requires
        0 <= k <= digits.len(),
    ensures
        decimal_value(digits.take(k)) <= decimal_value(digits),
    decreases digits.len() - k,
{
    if k == digits.len() {
        assert(digits.take(k) == digits);
    } else {
        lemma_decimal_value_grows(digits, k + 1);
        assert(digits.take(k + 1).drop_last() == digits.take(k));
    }
}

/// The value of an ASCII digit.
fn digit_to_value(c: char) -> (d: u64)
    requires
        is_digit(c),
    ensures
        d == digit_value(c),
        d < 10,
{
    (c as u64) - ('0' as u64)
}

/// The number that a run of digits denotes, or `None` where that number is
/// above `u32::MAX`.
pub(crate) fn decimal_u32(digits: &str) -> (value: Option<u32>)
    requires
        all_in(digits@, CharClass::Digit),
    ensures
        match value {
            Some(v) => v == decimal_value(digits@),
            None => decimal_value(digits@) > u32::MAX,
        },
{
    let len: usize = digits.unicode_len();
    let mut chars = digits.chars();
    let mut n: usize = 0;
    let mut acc: u64 = 0;
    loop
        invariant_except_break
            chars.remaining() == digits@.skip(n as int),
        invariant
            len == digits@.len(),
            n <= len,
            all_in(digits@, CharClass::Digit),
            acc == decimal_value(digits@.take(n as int)),
            acc <= u32::MAX,
        ensures
            n == len,
        decreases len - n,
    {
        match chars.next() {
            Some(c) => {
                let d: u64 = digit_to_value(c);
                assert(digits@.take(n + 1).drop_last() == digits@.take(n as int));
                acc = acc * 10 + d;
                n = n + 1;
                if acc > 0xffff_ffff {
                    proof {
                        lemma_decimal_value_grows(digits@, n as int);
                    }
                    return None;
                }
            },
            None => {
                break;
            },
        }
    }
    Some(acc as u32)
}

/// The text of one decimal digit.
fn digit_str(d: usize) -> (text: &'static str)
    requires
        d < 10,
    ensures
        text@ == seq![digit_char(d as nat)],
{
    proof {
        reveal_strlit("0");
        reveal_strlit("1");
        reveal_strlit("2");
        reveal_strlit("3");
        reveal_strlit("4");
        reveal_strlit("5");
        reveal_strlit("6");
        reveal_strlit("7");
        reveal_strlit("8");
        reveal_strlit("9");
    }
    if d == 0 {
        "0"
    } else if d == 1 {
        "1"
    } else if d == 2 {
        "2"
    } else if d == 3 {
        "3"
    } else if d == 4 {
        "4"
    } else if d == 5 {
        "5"
    } else if d == 6 {
        "6"
    } else if d == 7 {
        "7"
    } else if d == 8 {
        "8"
    } else {
        "9"
    }
}

/// Writes `n` in decimal notation.
pub fn decimal_string(n: usize) -> (text: String)
    ensures
        text@ == decimal_text(n as nat),
    decreases n,
{
    if n < 10 {
        digit_str(n).to_owned()
    } else {
        let mut text = decimal_string(n / 10);
        text.append(digit_str(n % 10));
        text
    }
}

} // verus!
