//! Text helpers: decimal numbers and character-level rewriting.
use vstd::prelude::*;
use vstd::string::{StrSliceExecFns, StringExecFns};

verus! {

/// The decimal digit `d` (for `d < 10`) as text.
pub open spec fn spec_digit(d: nat) -> Seq<char> {
    if d == 0 {
        "0"@
    } else if d == 1 {
        "1"@
    } else if d == 2 {
        "2"@
    } else if d == 3 {
        "3"@
    } else if d == 4 {
        "4"@
    } else if d == 5 {
        "5"@
    } else if d == 6 {
        "6"@
    } else if d == 7 {
        "7"@
    } else if d == 8 {
        "8"@
    } else {
        "9"@
    }
}

/// The decimal spelling of `n`, without leading zeros.
pub open spec fn spec_decimal(n: nat) -> Seq<char>
    decreases n,
{
    if n < 10 {
        spec_digit(n)
    } else {
        spec_decimal(n / 10) + spec_digit(n % 10)
    }
}

fn digitText(d: usize) -> (text: &'static str)
    requires
        d < 10,
    ensures
        text@ == spec_digit(d as nat),
{
    if d == 0 {
        "0"
    } else if d == 1 {
        "1"
    } else if d == 2 {
        "2"
    } else if d == 3 {
        "3"
    } else if d == 4 {
        "4"
    } else if d == 5 {
        "5"
    } else if d == 6 {
        "6"
    } else if d == 7 {
        "7"
    } else if d == 8 {
        "8"
    } else {
        "9"
    }
}

/// Writes `n` in decimal.
pub fn decimalText(n: usize) -> (text: String)
    ensures
        text@ == spec_decimal(n as nat),
    decreases n,
{
    if n < 10 {
        String::from_str(digitText(n))
    } else {
        let prefix = decimalText(n / 10);
        prefix.concat(digitText(n % 10))
    }
}

/// The characters of `text`, in order.
pub fn charsOf(text: &str) -> (chars: Vec<char>)
    ensures
        chars@ == text@,
{
    let length = text.unicode_len();
    let mut chars: Vec<char> = Vec::new();
    let mut i: usize = 0;
    while i < length
        invariant
            i <= length,
            length == text@.len(),
            chars@ == text@.take(i as int),
        decreases length - i,
    {
        chars.push(text.get_char(i));
        i = i + 1;
        assert(chars@ =~= text@.take(i as int));
    }
    assert(text@.take(length as int) =~= text@);
    chars
}

/// `text` with every `from` replaced by the characters `to`.
pub open spec fn spec_replace(text: Seq<char>, from: char, to: Seq<char>) -> Seq<char>
    decreases text.len(),
{
    if text.len() == 0 {
        text
    } else {
        let rest = spec_replace(text.drop_last(), from, to);
        if text.last() == from {
            rest + to
        } else {
            rest.push(text.last())
        }
    }
}

/// Replaces every `from` in `text` by `to`.
pub fn replaceChar(text: &str, from: char, to: &str) -> (result: String)
    ensures
        result@ == spec_replace(text@, from, to@),
{
    let chars = charsOf(text);
    let mut out = String::new();
    let mut segmentStart: usize = 0;
    let mut i: usize = 0;
    while i < chars.len()
        invariant
            segmentStart <= i <= chars@.len(),
            chars@ == text@,
            out@ + text@.subrange(segmentStart as int, i as int) == spec_replace(text@.take(i as int), from, to@),
        decreases chars@.len() - i,
    {
        assert(text@.take(i + 1).drop_last() == text@.take(i as int));
        assert(text@.take(i + 1).last() == chars@[i as int]);
        if chars[i] == from {
            out.append(text.substring_char(segmentStart, i));
            out.append(to);
            segmentStart = i + 1;
            assert(text@.subrange(segmentStart as int, (i + 1) as int) =~= Seq::<char>::empty());
        } else {
            assert(text@.subrange(segmentStart as int, i + 1) =~= text@.subrange(segmentStart as int, i as int).push(chars@[i as int]));
        }
        i = i + 1;
    }
    out.append(text.substring_char(segmentStart, chars.len()));
    assert(text@.take(chars@.len() as int) == text@);
    out
}

/// `count` copies of `text`.
pub open spec fn spec_repeat(text: Seq<char>, count: nat) -> Seq<char>
    decreases count,
{
    if count == 0 {
        Seq::empty()
    } else {
        spec_repeat(text, (count - 1) as nat) + text
    }
}

/// `count` copies of `text`, one after another.
pub fn repeatText(text: &str, count: usize) -> (result: String)
    ensures
        result@ == spec_repeat(text@, count as nat),
{
    let mut result = String::new();
    let mut i: usize = 0;
    while i < count
        invariant
            i <= count,
            result@ == spec_repeat(text@, i as nat),
        decreases count - i,
    {
        result.append(text);
        i = i + 1;
    }
    result
}

} // verus!
