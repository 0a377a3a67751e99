//! Signed decimal numbers in text.

use crate::text::chars_of;
use vstd::prelude::*;

verus! {

/// Whether `c` is one of the ten decimal digits.
pub open spec fn is_digit(c: char) -> bool {
    '0' <= c <= '9'
}

/// The value of a decimal digit.
pub open spec fn digit_value(c: char) -> int {
    c as int - '0' as int
}

/// Whether `text` holds decimal digits only.
pub open spec fn all_digits(text: Seq<char>) -> bool {
    forall|i: int| 0 <= i < text.len() ==> is_digit(#[trigger] text[i])
}

/// The number that a run of decimal digits denotes, the most significant
/// digit first.
pub open spec fn decimal_value(digits: Seq<char>) -> int
    decreases digits.len(),
{
    if digits.len() == 0 {
        0
    } else {
        10 * decimal_value(digits.drop_last()) + digit_value(digits.last())
    }
}

/// The integer that `text` denotes: an optional sign, `+` or `-`, and then
/// one decimal digit or more, and nothing else.
pub open spec fn signed_value(text: Seq<char>) -> Option<int> {
    if text.len() > 0 && (text[0] == '-' || text[0] == '+') {
        let digits = text.subrange(1, text.len() as int);
        if digits.len() > 0 && all_digits(digits) {
            Some(
                if text[0] == '-' {
                    -decimal_value(digits)
                } else {
                    decimal_value(digits)
                },
            )
        } else {
            None
        }
    } else if text.len() > 0 && all_digits(text) {
        Some(decimal_value(text))
    } else {
        None
    }
}

/// The `i64` that `text` denotes, if it denotes an integer and that integer
/// is one.
pub open spec fn parsed_i64(text: Seq<char>) -> Option<i64> {
    match signed_value(text) {
        Some(value) => if i64::MIN <= value <= i64::MAX {
            Some(value as i64)
        } else {
            None
        },
        None => None,
    }
}

/// A run of digits denotes at least what any of its prefixes denotes.
proof fn lemma_prefix_value(digits: Seq<char>, k: int)
    requires
        all_digits(digits),
        0 <= k <= digits.len(),
    ensures
        0 <= decimal_value(digits.take(k)) <= decimal_value(digits),
    decreases digits.len(),
{
    if k == digits.len() {
        assert(digits.take(k) =~= digits);
        if digits.len() > 0 {
            lemma_prefix_value(digits.drop_last(), k - 1);
            assert(is_digit(digits[digits.len() - 1]));
        }
    } else {
        lemma_prefix_value(digits.drop_last(), k);
        assert(digits.drop_last().take(k) =~= digits.take(k));
        assert(is_digit(digits[digits.len() - 1]));
    }
}

/// Reads the signed decimal number in `chars[from..to]`.
///
/// The text is an optional sign and then one digit or more. The result is
/// `None` where it is anything else, and where the number is no `i64`.
#[verifier::loop_isolation(false)]
pub(crate) fn parse_i64_in(chars: &Vec<char>, from: usize, to: usize) -> (result: Option<i64>)
    requires
        from <= to <= chars.len(),
    ensures
        result == parsed_i64(chars@.subrange(from as int, to as int)),
{
    let ghost text = chars@.subrange(from as int, to as int);
    if from == to {
        return None;
    }
    let negative: bool = chars[from] == '-';
    let first: usize = if negative || chars[from] == '+' {
        from + 1
    } else {
        from
    };
    let ghost digits = chars@.subrange(first as int, to as int);
    proof {
        assert(text[0] == chars@[from as int]);
        if first == from {
            assert(digits =~= text);
        } else {
            assert(digits =~= text.subrange(1, text.len() as int));
        }
    }
    if first == to {
        return None;
    }
    let bound: u128 = 0x8000_0000_0000_0000;
    let mut value: u128 = 0;
    let mut i: usize = first;
    while i < to
        invariant
            first <= i <= to <= chars.len(),
            digits == chars@.subrange(first as int, to as int),
            all_digits(digits.take(i - first)),
            value == decimal_value(digits.take(i - first)),
            value <= bound,
            bound == 0x8000_0000_0000_0000,
        decreases to - i,
    {
        let c: char = chars[i];
        let ghost seen = digits.take(i - first);
        let ghost next = digits.take(i - first + 1);
        proof {
            assert(next.drop_last() =~= seen);
            assert(next.last() == c);
        }
        if c < '0' || c > '9' {
            proof {
                assert(digits[i - first] == c);
                assert(!all_digits(digits));
            }
            return None;
        }
        let digit: u128 = (c as u32 - '0' as u32) as u128;
        value = value * 10 + digit;
        proof {
            assert forall|j: int| 0 <= j < next.len() implies is_digit(#[trigger] next[j]) by {
                if j < seen.len() {
                    assert(next[j] == seen[j]);
                }
            }
        }
        if value > bound {
            proof {
                if all_digits(digits) {
                    lemma_prefix_value(digits, i - first + 1);
                }
            }
            return None;
        }
        i = i + 1;
    }
    proof {
        assert(digits.take(to - first) =~= digits);
    }
    if negative {
        if value == bound {
            Some(i64::MIN)
        } else {
            Some(-(value as i64))
        }
    } else if value == bound {
        None
    } else {
        Some(value as i64)
    }
}

/// Reads `text` as a signed decimal number: an optional sign, `+` or `-`,
/// then one digit or more. `None` where the text is anything else, and where
/// the number is no `i64`.
pub fn parse_i64(text: &str) -> (result: Option<i64>)
    ensures
        result == parsed_i64(text@),
{
    let chars: Vec<char> = chars_of(text);
    proof {
        assert(chars@.subrange(0, chars@.len() as int) =~= chars@);
    }
    parse_i64_in(&chars, 0, chars.len())
}

} // verus!
