//! Decimal numerals: writing an integer, and reading one back.

use crate::text::{chars_of, decimal_text, digit_char, push_decimal};
use vstd::prelude::*;

verus! {

/// Whether `c` is a decimal digit.
pub open spec fn is_digit(c: char) -> bool {
    '0' <= c && c <= '9'
}

/// The value of a decimal digit.
pub open spec fn digit_value(c: char) -> nat {
    if c == '1' {
        1
    } else if c == '2' {
        2
    } else if c == '3' {
        3
    } else if c == '4' {
        4
    } else if c == '5' {
        5
    } else if c == '6' {
        6
    } else if c == '7' {
        7
    } else if c == '8' {
        8
    } else if c == '9' {
        9
    } else {
        0
    }
}

/// Whether `s` is made of decimal digits alone.
pub open spec fn all_digits(s: Seq<char>) -> bool {
    forall|i: int| 0 <= i < s.len() ==> is_digit(#[trigger] s[i])
}

/// The number that a sequence of digits writes.
pub open spec fn digits_value(s: Seq<char>) -> nat
    decreases s.len(),
{
    if s.len() == 0 {
        0
    } else {
        digits_value(s.drop_last()) * 10 + digit_value(s.last())
    }
}

/// The integer that a numeral writes: one or more digits, with a minus
/// sign in front for a negative one. `None` for any other text.
pub open spec fn numeral(s: Seq<char>) -> Option<int> {
    if s.len() > 0 && s[0] == '-' {
        if s.len() > 1 && all_digits(s.skip(1)) {
            Some(-(digits_value(s.skip(1)) as int))
        } else {
            None
        }
    } else if s.len() > 0 && all_digits(s) {
        Some(digits_value(s) as int)
    } else {
        None
    }
}

/// The numeral of an integer: its digits without leading zeros, after a
/// minus sign if it is negative.
pub open spec fn signed_decimal(n: int) -> Seq<char> {
    if n < 0 {
        seq!['-'] + decimal_text((-n) as nat)
    } else {
        decimal_text(n as nat)
    }
}

/// The integer that a text writes, where it is a numeral of an integer
/// from `i32::MIN` to `i32::MAX`.
pub open spec fn numeral_i32(s: Seq<char>) -> Option<i32> {
    match numeral(s) {
        Some(v) => if i32::MIN <= v <= i32::MAX {
            Some(v as i32)
        } else {
            None
        },
        None => None,
    }
}

/// The integer that a text writes, where it is a numeral of an integer
/// from `i64::MIN` to `i64::MAX`.
pub open spec fn numeral_i64(s: Seq<char>) -> Option<i64> {
    match numeral(s) {
        Some(v) => if i64::MIN <= v <= i64::MAX {
            Some(v as i64)
        } else {
            None
        },
        None => None,
    }
}

/// A longer sequence of digits writes no smaller number.
proof fn lemma_digits_grow(s: Seq<char>, i: int)
    requires
        0 <= i <= s.len(),
    ensures
        digits_value(s.take(i)) <= digits_value(s),
    decreases s.len() - i,
{
    if i < s.len() {
        lemma_digits_grow(s, i + 1);
        assert(s.take(i + 1).drop_last() =~= s.take(i));
        assert(digits_value(s.take(i + 1)) >= digits_value(s.take(i)) * 10) by {
            assert(digits_value(s.take(i + 1)) == digits_value(s.take(i)) * 10 + digit_value(
                s.take(i + 1).last(),
            ));
        }
    } else {
        assert(s.take(i) =~= s);
    }
}

/// The digits that write a number are digits.
proof fn lemma_digit_char(d: nat)
    requires
        d < 10,
    ensures
        is_digit(digit_char(d)),
        digit_value(digit_char(d)) == d,
        digit_char(d) != '-',
{
}

/// The numeral of a natural number is made of digits and writes that
/// number.
pub proof fn lemma_decimal_text(n: nat)
    ensures
        decimal_text(n).len() > 0,
        all_digits(decimal_text(n)),
        digits_value(decimal_text(n)) == n,
        decimal_text(n)[0] != '-',
    decreases n,
{
    lemma_digit_char(n % 10);
    if n < 10 {
        assert(decimal_text(n).drop_last() =~= Seq::<char>::empty());
        assert(digits_value(decimal_text(n)) == digits_value(decimal_text(n).drop_last()) * 10
            + digit_value(decimal_text(n).last()));
    } else {
        lemma_decimal_text(n / 10);
        let front = decimal_text(n / 10);
        assert(decimal_text(n).drop_last() =~= front);
        assert(decimal_text(n).last() == digit_char(n % 10));
        assert(decimal_text(n)[0] == front[0]);
    }
}

/// Reading the numeral of an integer gives the integer back.
pub proof fn lemma_numeral_of_decimal(n: int)
    ensures
        numeral(signed_decimal(n)) == Some(n),
{
    if n < 0 {
        lemma_decimal_text((-n) as nat);
        assert(signed_decimal(n).skip(1) =~= decimal_text((-n) as nat));
    } else {
        lemma_decimal_text(n as nat);
    }
}

fn digit_of_char(c: char) -> (r: Option<u8>)
    ensures
        match r {
            Some(d) => is_digit(c) && d == digit_value(c) && d < 10,
            None => !is_digit(c),
        },
{
    if c == '0' {
        Some(0)
    } else if c == '1' {
        Some(1)
    } else if c == '2' {
        Some(2)
    } else if c == '3' {
        Some(3)
    } else if c == '4' {
        Some(4)
    } else if c == '5' {
        Some(5)
    } else if c == '6' {
        Some(6)
    } else if c == '7' {
        Some(7)
    } else if c == '8' {
        Some(8)
    } else if c == '9' {
        Some(9)
    } else {
        None
    }
}

/// The integer that `text` writes, where it is the numeral of an `i64`.
pub fn parse_i64(text: &str) -> (r: Option<i64>)
    ensures
        r == numeral_i64(text@),
{
    let chars = chars_of(text);
    if chars.len() == 0 {
        return None;
    }
    let negative = chars[0] == '-';
    let start: usize = if negative { 1 } else { 0 };
    if start == chars.len() {
        return None;
    }
    let ghost digits = chars@.skip(start as int);
    let mut total: i128 = 0;
    let mut i: usize = start;
    assert(digits.take(0) =~= Seq::<char>::empty());
    while i < chars.len()
        invariant
            start <= i <= chars.len(),
            chars@ == text@,
            chars@.len() > start,
            negative == (chars@[0] == '-'),
            start == (if negative { 1usize } else { 0usize }),
            digits == chars@.skip(start as int),
            all_digits(digits.take(i - start)),
            total == digits_value(digits.take(i - start)),
            0 <= total <= 9223372036854775808,
        decreases chars.len() - i,
    {
        let ghost seen = digits.take(i - start);
        let ghost next = digits.take(i - start + 1);
        proof {
            assert(next.drop_last() =~= seen);
            assert(next.last() == chars@[i as int]);
        }
        match digit_of_char(chars[i]) {
            Some(d) => {
                total = total * 10 + d as i128;
                proof {
                    assert forall|k: int| 0 <= k < next.len() implies is_digit(
                        #[trigger] next[k],
                    ) by {
                        if k < seen.len() {
                            assert(next[k] == seen[k]);
                        }
                    }
                }
                if total > 9223372036854775808 {
                    proof {
                        lemma_digits_grow(digits, i - start + 1);
                        assert(!negative ==> digits =~= chars@);
                    }
                    return None;
                }
            },
            None => {
                proof {
                    assert(!is_digit(digits[i - start]));
                    assert(!negative ==> digits =~= chars@);
                }
                return None;
            },
        }
        i += 1;
    }
    proof {
        assert(digits.take(i - start) =~= digits);
        assert(!negative ==> digits =~= chars@);
    }
    if negative {
        Some((-total) as i64)
    } else if total == 9223372036854775808 {
        None
    } else {
        Some(total as i64)
    }
}

/// The integer that `text` writes, where it is the numeral of an `i32`.
pub fn parse_i32(text: &str) -> (r: Option<i32>)
    ensures
        r == numeral_i32(text@),
{
    match parse_i64(text) {
        Some(v) => if v >= -2147483648 && v <= 2147483647 {
            Some(v as i32)
        } else {
            None
        },
        None => None,
    }
}

/// The numeral of `n`.
pub fn decimal(n: i64) -> (r: String)
    ensures
        r@ == signed_decimal(n as int),
{
    let mut out = String::new();
    if n < 0 {
        out.push('-');
        let size: u64 = (-(n + 1)) as u64 + 1;
        push_decimal(&mut out, size);
        assert(out@ =~= signed_decimal(n as int));
    } else {
        push_decimal(&mut out, n as u64);
        assert(out@ =~= signed_decimal(n as int));
    }
    out
}

} // verus!
