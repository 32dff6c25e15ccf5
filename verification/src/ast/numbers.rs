//! Reading number literals.
use vstd::prelude::*;

use crate::module::FileRange;
use crate::text::charsOf;

verus! {

pub open spec fn is_digit(c: char) -> bool {
    '0' <= c && c <= '9'
}

pub open spec fn digit_value(c: char) -> int {
    c as int - '0' as int
}

pub open spec fn all_digits(s: Seq<char>) -> bool {
    forall|i: int| 0 <= i < s.len() ==> is_digit(#[trigger] s[i])
}

/// The number written by the decimal digits `s`.
pub open spec fn digits_value(s: Seq<char>) -> int
    decreases s.len(),
{
    if s.len() == 0 {
        0
    } else {
        digits_value(s.drop_last()) * 10 + digit_value(s.last())
    }
}

/// The 64-bit signed integer written in `s`: an optional `+` or `-` followed by
/// at least one decimal digit, with a value inside the range of `i64`.
pub open spec fn spec_parse_i64(s: Seq<char>) -> Option<int> {
    if s.len() == 0 {
        None
    } else {
        let negative = s[0] == '-';
        let body = if s[0] == '-' || s[0] == '+' { s.skip(1) } else { s };
        if body.len() == 0 || !all_digits(body) {
            None
        } else {
            let value = if negative { -digits_value(body) } else { digits_value(body) };
            if i64::MIN <= value <= i64::MAX {
                Some(value)
            } else {
                None
            }
        }
    }
}

proof fn lemma_digits_grow(s: Seq<char>, i: int)
    requires
        all_digits(s),
        0 <= i <= s.len(),
    ensures
        0 <= digits_value(s.take(i)) <= digits_value(s),
    decreases s.len() - i,
{
    if i < s.len() {
        lemma_digits_grow(s, i + 1);
        assert(s.take(i + 1).drop_last() == s.take(i));
        assert(s.take(i + 1).last() == s[i]);
        lemma_digits_nonneg(s.take(i));
    } else {
        assert(s.take(i) == s);
        lemma_digits_nonneg(s);
    }
}

proof fn lemma_digits_nonneg(s: Seq<char>)
    requires
        all_digits(s),
    ensures
        digits_value(s) >= 0,
    decreases s.len(),
{
    if s.len() > 0 {
        assert(all_digits(s.drop_last())) by {
            assert forall|i: int| 0 <= i < s.drop_last().len() implies is_digit(#[trigger] s.drop_last()[i]) by {
                assert(s.drop_last()[i] == s[i]);
            }
        }
        lemma_digits_nonneg(s.drop_last());
        assert(is_digit(s[s.len() - 1]));
    }
}

/// Reads a 64-bit signed integer written in decimal.
pub fn parseInteger(text: &str) -> (value: Option<i64>)
    ensures
        match spec_parse_i64(text@) {
            Some(v) => value == Some(v as i64),
            None => value is None,
        },
{
    let chars = charsOf(text);
    if chars.len() == 0 {
        return None;
    }
    let negative = chars[0] == '-';
    let start: usize = if chars[0] == '-' || chars[0] == '+' { 1 } else { 0 };
    let ghost body = if chars@[0] == '-' || chars@[0] == '+' { chars@.skip(1) } else { chars@ };
    assert(body == chars@.skip(start as int));
    if start == chars.len() {
        return None;
    }
    let mut magnitude: u64 = 0;
    let mut i: usize = start;
    let limit: u64 = 9223372036854775808;
    while i < chars.len()
        invariant
            chars@ == text@,
            start <= i <= chars@.len(),
            body == chars@.skip(start as int),
            chars@.len() > 0,
            body == (if chars@[0] == '-' || chars@[0] == '+' { chars@.skip(1) } else { chars@ }),
            negative == (chars@[0] == '-'),
            limit == 9223372036854775808u64,
            all_digits(chars@.subrange(start as int, i as int)),
            magnitude == digits_value(chars@.subrange(start as int, i as int)),
            magnitude <= limit,
        decreases chars@.len() - i,
    {
        let c = chars[i];
        if !('0' <= c && c <= '9') {
            assert(!all_digits(body)) by {
                assert(body[i - start] == c);
            }
            return None;
        }
        let digit = (c as u32 - '0' as u32) as u64;
        assert(chars@.subrange(start as int, i + 1).drop_last() == chars@.subrange(start as int, i as int));
        assert(chars@.subrange(start as int, i + 1).last() == c);
        assert(all_digits(chars@.subrange(start as int, i + 1))) by {
            assert forall|j: int| 0 <= j < chars@.subrange(start as int, i + 1).len() implies is_digit(
                #[trigger] chars@.subrange(start as int, i + 1)[j],
            ) by {
                if j < i - start {
                    assert(chars@.subrange(start as int, i + 1)[j] == chars@.subrange(start as int, i as int)[j]);
                }
            }
        }
        if magnitude > (limit - digit) / 10 {
            proof {
                assert(chars@.subrange(start as int, i + 1) == body.take(i + 1 - start));
                assert(all_digits(body) ==> digits_value(body) >= digits_value(body.take(i + 1 - start))) by {
                    if all_digits(body) {
                        lemma_digits_grow(body, i + 1 - start);
                    }
                }
                assert(digits_value(chars@.subrange(start as int, i + 1)) > limit) by (nonlinear_arith)
                    requires
                        digits_value(chars@.subrange(start as int, i + 1)) == magnitude * 10 + digit,
                        magnitude > (limit - digit) / 10,
                        digit <= 9,
                        limit == 9223372036854775808u64,
                ;
            }
            return None;
        }
        magnitude = magnitude * 10 + digit;
        i = i + 1;
    }
    assert(chars@.subrange(start as int, chars@.len() as int) == body);
    if negative {
        if magnitude == limit {
            Some(-9223372036854775807i64 - 1)
        } else {
            Some(-(magnitude as i64))
        }
    } else if magnitude == limit {
        None
    } else {
        Some(magnitude as i64)
    }
}

/// A number with a decimal point is a floating point number.
pub open spec fn spec_is_float(text: Seq<char>) -> bool {
    text.contains('.')
}

pub fn isFloat(number: &FileRange) -> (float: bool)
    ensures
        float == spec_is_float(number.text@),
{
    let chars = charsOf(number.getSourceInRange());
    let mut i: usize = 0;
    while i < chars.len()
        invariant
            chars@ == number.text@,
            i <= chars@.len(),
            forall|j: int| 0 <= j < i ==> chars@[j] != '.',
        decreases chars@.len() - i,
    {
        if chars[i] == '.' {
            assert(chars@[i as int] == '.');
            return true;
        }
        i = i + 1;
    }
    false
}

} // verus!
