//! Decimal numbers in text: reading an unsigned integer, reading a flag
//! written as `0` or `1`, and writing an unsigned integer.
//!
//! A number is read as `str::parse` reads it: [`parse_unsigned`] takes what
//! parses as a `usize`, and [`parse_flag`] what parses as an `i32` of value 0
//! or 1. The readers are written here so that each comes with a contract and
//! its proof.

use crate::text::characters;
use vstd::prelude::*;

verus! {

/// Whether `c` is one of the ten decimal digits `0` to `9`.
pub open spec fn is_digit(c: char) -> bool {
    '0' <= c <= '9'
}

/// The number that the decimal digit `c` stands for; 0 for any other character.
pub open spec fn digit_value(c: char) -> nat {
    if is_digit(c) {
        (c as u32 - '0' as u32) as nat
    } else {
        0
    }
}

/// The decimal digit that stands for `d`, for `d` below ten.
pub open spec fn digit_char(d: nat) -> char
    recommends
        d < 10,
{
    if d == 0 {
        '0'
    } else if d == 1 {
        '1'
    } else if d == 2 {
        '2'
    } else if d == 3 {
        '3'
    } else if d == 4 {
        '4'
    } else if d == 5 {
        '5'
    } else if d == 6 {
        '6'
    } else if d == 7 {
        '7'
    } else if d == 8 {
        '8'
    } else {
        '9'
    }
}

/// Whether `text` is one or more decimal digits and nothing else.
pub open spec fn is_digits(text: Seq<char>) -> bool {
    &&& text.len() > 0
    &&& forall|i: int| 0 <= i < text.len() ==> is_digit(#[trigger] text[i])
}

/// The number that a run of decimal digits denotes, most significant digit
/// first. Leading zeros do not count.
pub open spec fn digits_value(digits: Seq<char>) -> nat
    decreases digits.len(),
{
    if digits.len() == 0 {
        0
    } else {
        10 * digits_value(digits.drop_last()) + digit_value(digits.last())
    }
}

/// The value of `text` read as an unsigned decimal integer: an optional `+`,
/// then one or more digits, with a value that fits in `usize`. Nothing else is
/// a number: not the empty text, not a lone `+`, and no text with a `-`, with
/// white space or with any other character.
pub open spec fn unsigned_value(text: Seq<char>) -> Option<nat> {
    let digits = if text.len() > 0 && text[0] == '+' {
        text.skip(1)
    } else {
        text
    };
    if is_digits(digits) && digits_value(digits) <= usize::MAX {
        Some(digits_value(digits))
    } else {
        None
    }
}

/// The value of `text` read as a flag: a signed decimal integer (an optional
/// `+` or `-`, then one or more digits) whose value is 0, for `false`, or 1,
/// for `true`. Any other integer, and anything that is no integer, is no flag.
pub open spec fn flag_value(text: Seq<char>) -> Option<bool> {
    let signed = text.len() > 0 && (text[0] == '+' || text[0] == '-');
    let digits = if signed {
        text.skip(1)
    } else {
        text
    };
    if !is_digits(digits) {
        None
    } else if digits_value(digits) == 0 {
        Some(false)
    } else if digits_value(digits) == 1 && text[0] != '-' {
        Some(true)
    } else {
        None
    }
}

/// The decimal digits of `n`, most significant first, without leading zeros.
pub open spec fn decimal_digits(n: nat) -> Seq<char>
    decreases n,
{
    if n < 10 {
        seq![digit_char(n)]
    } else {
        decimal_digits(n / 10).push(digit_char(n % 10))
    }
}

/// A run of digits denotes at least what any of its prefixes denotes.
pub proof fn lemma_digits_value_of_prefix(digits: Seq<char>, length: int)
    requires
        0 <= length <= digits.len(),
    ensures
        digits_value(digits.take(length)) <= digits_value(digits),
    decreases digits.len() - length,
{
    if length == digits.len() {
        assert(digits.take(length) =~= digits);
    } else {
        lemma_digits_value_of_prefix(digits.drop_last(), length);
        assert(digits.drop_last().take(length) =~= digits.take(length));
    }
}

/// What `decimal_digits` writes is a run of digits that denotes `n` and does
/// not start with a sign.
pub proof fn lemma_decimal_digits(n: nat)
    ensures
        is_digits(decimal_digits(n)),
        digits_value(decimal_digits(n)) == n,
        decimal_digits(n)[0] != '+',
        decimal_digits(n)[0] != '-',
    decreases n,
{
    if n < 10 {
        let text = decimal_digits(n);
        assert(text.drop_last() =~= Seq::<char>::empty());
        assert(digits_value(text) == 10 * digits_value(text.drop_last()) + digit_value(
            text.last(),
        ));
    } else {
        let front = decimal_digits(n / 10);
        let text = decimal_digits(n);
        lemma_decimal_digits(n / 10);
        assert(text.drop_last() =~= front);
        assert(text[0] == front[0]);
        assert forall|i: int| 0 <= i < text.len() implies is_digit(#[trigger] text[i]) by {
            if i < front.len() {
                assert(text[i] == front[i]);
            }
        }
    }
}

/// A number that is written in decimal and read back is the same number.
pub proof fn decimal_round_trip(n: nat)
    requires
        n <= usize::MAX,
    ensures
        unsigned_value(decimal_digits(n)) == Some(n),
{
    lemma_decimal_digits(n);
}

/// Reads the digits of `chars` from index `start` to the end as one number.
fn read_digits(chars: &[char], start: usize) -> (r: Option<usize>)
    requires
        start <= chars.len(),
    ensures
        match r {
            Some(value) => is_digits(chars@.skip(start as int)) && value == digits_value(
                chars@.skip(start as int),
            ),
            None => !is_digits(chars@.skip(start as int)) || digits_value(
                chars@.skip(start as int),
            ) > usize::MAX,
        },
{
    let ghost digits = chars@.skip(start as int);
    if start == chars.len() {
        return None;
    }
    let mut value: usize = 0;
    let mut i: usize = start;
    while i < chars.len()
        invariant
            start <= i <= chars.len(),
            digits == chars@.skip(start as int),
            forall|j: int| 0 <= j < i - start ==> is_digit(#[trigger] digits[j]),
            value == digits_value(digits.take(i - start)),
        decreases chars.len() - i,
    {
        let c = chars[i];
        if !('0' <= c && c <= '9') {
            assert(!is_digit(digits[i - start]));
            return None;
        }
        let digit: usize = (c as u32 - '0' as u32) as usize;
        proof {
            let longer = digits.take(i - start + 1);
            assert(longer.drop_last() =~= digits.take(i - start));
            assert(longer.last() == c);
            assert(digits_value(longer) == 10 * value + digit);
            lemma_digits_value_of_prefix(digits, i - start + 1);
        }
        let tens: usize = match value.checked_mul(10) {
            Some(tens) => tens,
            None => { return None; },
        };
        value = match tens.checked_add(digit) {
            Some(sum) => sum,
            None => { return None; },
        };
        i += 1;
    }
    assert(digits.take(i - start) =~= digits);
    Some(value)
}

/// Reads `text` as an unsigned decimal integer.
///
/// Returns the number where `text` is an optional `+` followed by one or more
/// digits and the number fits in `usize`, and `None` otherwise.
pub fn parse_unsigned(text: &str) -> (r: Option<usize>)
    ensures
        match r {
            Some(value) => unsigned_value(text@) == Some(value as nat),
            None => unsigned_value(text@) is None,
        },
{
    let chars = characters(text);
    let start: usize = if chars.len() > 0 && chars[0] == '+' {
        1
    } else {
        0
    };
    assert(text@.skip(0) =~= text@);
    read_digits(chars.as_slice(), start)
}

/// Reads `text` as a flag.
///
/// Returns `false` where `text` is a decimal integer of value 0, `true` where
/// it is one of value 1, and `None` otherwise.
pub fn parse_flag(text: &str) -> (r: Option<bool>)
    ensures
        r == flag_value(text@),
{
    let chars = characters(text);
    let negative: bool = chars.len() > 0 && chars[0] == '-';
    let start: usize = if chars.len() > 0 && (chars[0] == '+' || chars[0] == '-') {
        1
    } else {
        0
    };
    assert(text@.skip(0) =~= text@);
    match read_digits(chars.as_slice(), start) {
        Some(0) => Some(false),
        Some(1) => if negative {
            None
        } else {
            Some(true)
        },
        _ => None,
    }
}

/// The text of the decimal digit that stands for `d`.
fn digit_text(d: usize) -> (r: &'static str)
    requires
        d < 10,
    ensures
        r@ == seq![digit_char(d as nat)],
{
    proof {
        reveal_strlit("0");
        reveal_strlit("1");
        reveal_strlit("2");
        reveal_strlit("3");
        reveal_strlit("4");
        reveal_strlit("5");
        reveal_strlit("6");
        reveal_strlit("7");
        reveal_strlit("8");
        reveal_strlit("9");
    }
    let text = if d == 0 {
        "0"
    } else if d == 1 {
        "1"
    } else if d == 2 {
        "2"
    } else if d == 3 {
        "3"
    } else if d == 4 {
        "4"
    } else if d == 5 {
        "5"
    } else if d == 6 {
        "6"
    } else if d == 7 {
        "7"
    } else if d == 8 {
        "8"
    } else {
        "9"
    };
    assert(text@ =~= seq![digit_char(d as nat)]);
    text
}

/// Writes `n` in decimal, without sign or leading zeros.
pub fn format_decimal(n: usize) -> (r: String)
    ensures
        r@ == decimal_digits(n as nat),
    decreases n,
{
    if n < 10 {
        digit_text(n).to_owned()
    } else {
        let mut text = format_decimal(n / 10);
        text.append(digit_text(n % 10));
        text
    }
}

} // verus!
