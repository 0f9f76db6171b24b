//! Decimal text: reading a count field and writing a number for a label.

use vstd::prelude::*;
use vstd::string::StringExecFns;

use crate::text::chars_of;

verus! {

/// Whether `c` is one of the ten ASCII decimal digits.
pub open spec fn is_digit(c: char) -> bool {
    '0' <= c && c <= '9'
}

/// The value of a decimal digit.
pub open spec fn digit_value(c: char) -> nat
    recommends
        is_digit(c),
{
    (c as u32 - '0' as u32) as nat
}

/// Whether every character of `s` is a decimal digit.
pub open spec fn all_digits(s: Seq<char>) -> bool {
    forall|i: int| 0 <= i < s.len() ==> is_digit(#[trigger] s[i])
}

/// The number that a sequence of decimal digits denotes, most significant
/// digit first. The empty sequence denotes zero.
pub open spec fn digits_value(s: Seq<char>) -> nat
    decreases s.len(),
{
    if s.len() == 0 {
        0
    } else {
        digits_value(s.drop_last()) * 10 + digit_value(s.last())
    }
}

/// The digits of a count field once an optional leading plus sign is removed.
pub open spec fn count_digits(s: Seq<char>) -> Seq<char> {
    if s.len() > 0 && s[0] == '+' {
        s.subrange(1, s.len() as int)
    } else {
        s
    }
}

/// Whether `s` is the text of a count: an optional plus sign, then one or
/// more decimal digits whose value fits in 32 bits.
pub open spec fn is_count_text(s: Seq<char>) -> bool {
    &&& count_digits(s).len() > 0
    &&& all_digits(count_digits(s))
    &&& digits_value(count_digits(s)) <= u32::MAX
}

/// The count that a count text denotes.
pub open spec fn count_value(s: Seq<char>) -> nat {
    digits_value(count_digits(s))
}

/// Appending a digit to a digit sequence never lowers its value.
pub proof fn lemma_digits_value_prefix(s: Seq<char>, n: int)
    requires
        0 <= n <= s.len(),
    ensures
        digits_value(s.subrange(0, n)) <= digits_value(s),
    decreases s.len() - n,
{
    if n < s.len() {
        lemma_digits_value_prefix(s, n + 1);
        let longer = s.subrange(0, n + 1);
        assert(longer.drop_last() =~= s.subrange(0, n));
    } else {
        assert(s.subrange(0, n) =~= s);
    }
}

/// Reads a count field: an optional plus sign followed by decimal digits.
///
/// Returns the count when the text is a count text, and nothing when it is
/// empty, holds a character that is no digit, or denotes a number above
/// `u32::MAX`.
pub fn parse_count(text: &str) -> (count: Option<u32>)
    ensures
        count is Some <==> is_count_text(text@),
        count matches Some(n) ==> n == count_value(text@),
{
    let chars = chars_of(text);
    let len = chars.len();
    let start: usize = if len > 0 && chars[0] == '+' { 1 } else { 0 };
    if start == len {
        return None;
    }
    let ghost digits = count_digits(text@);
    let mut value: u32 = 0;
    let mut i: usize = start;
    while i < len
        invariant
            start <= i <= len,
            len == text@.len(),
            chars@ == text@,
            digits == count_digits(text@),
            digits.len() == len - start,
            forall|k: int| 0 <= k < digits.len() ==> digits[k] == text@[k + start],
            all_digits(digits.subrange(0, i - start)),
            value == digits_value(digits.subrange(0, i - start)),
        decreases len - i,
    {
        let c = chars[i];
        let ghost seen = digits.subrange(0, i - start);
        let ghost next = digits.subrange(0, i + 1 - start);
        proof {
            assert(next.drop_last() =~= seen);
            assert(next.last() == c);
            lemma_digits_value_prefix(digits, i + 1 - start);
        }
        if !(c >= '0' && c <= '9') {
            assert(!is_digit(digits[i - start]));
            return None;
        }
        let d: u32 = c as u32 - '0' as u32;
        if value > (u32::MAX - d) / 10 {
            assert(digits_value(next) > u32::MAX);
            return None;
        }
        value = value * 10 + d;
        i += 1;
        proof {
            assert forall|k: int| 0 <= k < next.len() implies is_digit(#[trigger] next[k]) by {
                if k < seen.len() {
                    assert(seen[k] == next[k]);
                }
            }
        }
    }
    assert(digits.subrange(0, len - start) =~= digits);
    Some(value)
}

/// The character of a decimal digit.
pub open spec fn digit_char(d: nat) -> char
    recommends
        d < 10,
{
    if d == 0 {
        '0'
    } else if d == 1 {
        '1'
    } else if d == 2 {
        '2'
    } else if d == 3 {
        '3'
    } else if d == 4 {
        '4'
    } else if d == 5 {
        '5'
    } else if d == 6 {
        '6'
    } else if d == 7 {
        '7'
    } else if d == 8 {
        '8'
    } else {
        '9'
    }
}

/// The decimal digits of `n`, most significant first, without leading
/// zeros. Zero is the single digit `0`.
pub open spec fn decimal_digits(n: nat) -> Seq<char>
    decreases n,
{
    if n < 10 {
        seq![digit_char(n)]
    } else {
        decimal_digits(n / 10).push(digit_char(n % 10))
    }
}

/// The text of one decimal digit.
fn digit_text(d: u32) -> (text: &'static str)
    requires
        d < 10,
    ensures
        text@ == seq![digit_char(d as nat)],
{
    proof {
        reveal_strlit("0");
        reveal_strlit("1");
        reveal_strlit("2");
        reveal_strlit("3");
        reveal_strlit("4");
        reveal_strlit("5");
        reveal_strlit("6");
        reveal_strlit("7");
        reveal_strlit("8");
        reveal_strlit("9");
    }
    let text = if d == 0 {
        "0"
    } else if d == 1 {
        "1"
    } else if d == 2 {
        "2"
    } else if d == 3 {
        "3"
    } else if d == 4 {
        "4"
    } else if d == 5 {
        "5"
    } else if d == 6 {
        "6"
    } else if d == 7 {
        "7"
    } else if d == 8 {
        "8"
    } else {
        "9"
    };
    assert(text@ =~= seq![digit_char(d as nat)]);
    text
}

/// Writes `n` in decimal digits.
pub fn decimal_text(n: u32) -> (text: String)
    ensures
        text@ == decimal_digits(n as nat),
    decreases n,
{
    if n < 10 {
        String::from_str(digit_text(n))
    } else {
        let mut text = decimal_text(n / 10);
        text.append(digit_text(n % 10));
        assert(text@ =~= decimal_digits(n as nat));
        text
    }
}

} // verus!
