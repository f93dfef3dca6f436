//! Character-level text primitives.
//!
//! Strings are modelled as `Seq<char>`. The executable functions work on a
//! `Vec<char>` and on index ranges into it, so that one pass over the input
//! is enough for every later step.

use vstd::prelude::*;

verus! {

/// Whether `c` carries the Unicode property `White_Space`.
pub open spec fn is_whitespace(c: char) -> bool {
    let n = c as u32;
    ||| 0x09 <= n <= 0x0d
    ||| n == 0x20
    ||| n == 0x85
    ||| n == 0xa0
    ||| n == 0x1680
    ||| 0x2000 <= n <= 0x200a
    ||| n == 0x2028
    ||| n == 0x2029
    ||| n == 0x202f
    ||| n == 0x205f
    ||| n == 0x3000
}

/// `s` without its leading whitespace.
pub open spec fn trim_start(s: Seq<char>) -> Seq<char>
    decreases s.len(),
{
    if s.len() > 0 && is_whitespace(s.first()) {
        trim_start(s.drop_first())
    } else {
        s
    }
}

/// `s` without its trailing whitespace.
pub open spec fn trim_end(s: Seq<char>) -> Seq<char>
    decreases s.len(),
{
    if s.len() > 0 && is_whitespace(s.last()) {
        trim_end(s.drop_last())
    } else {
        s
    }
}

/// `s` without leading and trailing whitespace.
pub open spec fn trim(s: Seq<char>) -> Seq<char> {
    trim_end(trim_start(s))
}

/// The index of the first occurrence of `c` in `s`, or `s.len()` if there is none.
pub open spec fn position(s: Seq<char>, c: char) -> int
    decreases s.len(),
{
    if s.len() == 0 {
        0
    } else if s.first() == c {
        0
    } else {
        1 + position(s.drop_first(), c)
    }
}

/// Whether `c` is one of the ASCII digits `0` to `9`.
pub open spec fn is_digit(c: char) -> bool {
    '0' <= c <= '9'
}

/// The value of the ASCII digit `c`.
pub open spec fn digit_value(c: char) -> nat {
    (c as u32 - '0' as u32) as nat
}

/// Whether `s` consists of ASCII digits only.
pub open spec fn all_digits(s: Seq<char>) -> bool {
    forall|i: int| 0 <= i < s.len() ==> is_digit(#[trigger] s[i])
}

/// The number that the digit string `s` denotes in base ten.
pub open spec fn decimal_value(s: Seq<char>) -> nat
    decreases s.len(),
{
    if s.len() == 0 {
        0
    } else {
        decimal_value(s.drop_last()) * 10 + digit_value(s.last())
    }
}

/// `s` without one leading plus sign.
pub open spec fn unsigned_digits(s: Seq<char>) -> Seq<char> {
    if s.len() > 0 && s.first() == '+' {
        s.drop_first()
    } else {
        s
    }
}

/// The 16-bit unsigned number that `s` denotes: an optional plus sign
/// followed by one or more ASCII digits whose value is at most 65535.
/// Anything else denotes no number.
pub open spec fn parse_u16(s: Seq<char>) -> Option<u16> {
    let digits = unsigned_digits(s);
    if digits.len() > 0 && all_digits(digits) && decimal_value(digits) <= u16::MAX {
        Some(decimal_value(digits) as u16)
    } else {
        None
    }
}

/// The position of `c` is an index into `s`, or its length.
pub proof fn lemma_position_bounds(s: Seq<char>, c: char)
    ensures
        0 <= position(s, c) <= s.len(),
        position(s, c) < s.len() ==> s[position(s, c)] == c,
        forall|i: int| 0 <= i < position(s, c) ==> s[i] != c,
    decreases s.len(),
{
    if s.len() > 0 && s.first() != c {
        let rest = s.drop_first();
        lemma_position_bounds(rest, c);
        assert forall|i: int| 0 <= i < position(s, c) implies s[i] != c by {
            if i > 0 {
                assert(s[i] == rest[i - 1]);
            }
        }
    }
}

/// `c` occurs in `s` exactly when its position is an index into `s`; else
/// its position is the length of `s`.
pub proof fn lemma_position_contains(s: Seq<char>, c: char)
    ensures
        s.contains(c) <==> position(s, c) < s.len(),
        !s.contains(c) <==> position(s, c) == s.len(),
{
    lemma_position_bounds(s, c);
    if s.contains(c) {
        let i = choose|i: int| 0 <= i < s.len() && s[i] == c;
        assert(s[i] == c);
    }
}

/// A character before which `c` does not occur is at the position of `c`.
pub proof fn lemma_position_is(s: Seq<char>, c: char, at: int)
    requires
        0 <= at <= s.len(),
        forall|i: int| 0 <= i < at ==> s[i] != c,
        at < s.len() ==> s[at] == c,
    ensures
        position(s, c) == at,
{
    lemma_position_bounds(s, c);
}

/// Trimming at the start keeps a suffix, whose first character is no whitespace.
pub proof fn lemma_trim_start_is_suffix(s: Seq<char>) -> (cut: int)
    ensures
        0 <= cut <= s.len(),
        trim_start(s) == s.skip(cut),
        forall|i: int| 0 <= i < cut ==> is_whitespace(s[i]),
        cut < s.len() ==> !is_whitespace(s[cut]),
    decreases s.len(),
{
    if s.len() > 0 && is_whitespace(s.first()) {
        let rest = s.drop_first();
        let inner = lemma_trim_start_is_suffix(rest);
        assert(rest.skip(inner) =~= s.skip(inner + 1));
        assert forall|i: int| 0 <= i < inner + 1 implies is_whitespace(s[i]) by {
            if i > 0 {
                assert(s[i] == rest[i - 1]);
            }
        }
        if inner < rest.len() {
            assert(s[inner + 1] == rest[inner]);
        }
        inner + 1
    } else {
        assert(s.skip(0) =~= s);
        0
    }
}

/// Trimming at the end keeps a prefix, whose last character is no whitespace.
pub proof fn lemma_trim_end_is_prefix(s: Seq<char>) -> (keep: int)
    ensures
        0 <= keep <= s.len(),
        trim_end(s) == s.take(keep),
        forall|i: int| keep <= i < s.len() ==> is_whitespace(s[i]),
        keep > 0 ==> !is_whitespace(s[keep - 1]),
    decreases s.len(),
{
    if s.len() > 0 && is_whitespace(s.last()) {
        let rest = s.drop_last();
        let inner = lemma_trim_end_is_prefix(rest);
        assert(rest.take(inner) =~= s.take(inner));
        assert forall|i: int| inner <= i < s.len() implies is_whitespace(s[i]) by {
            if i < rest.len() {
                assert(s[i] == rest[i]);
            }
        }
        if inner > 0 {
            assert(s[inner - 1] == rest[inner - 1]);
        }
        inner
    } else {
        assert(s.take(s.len() as int) =~= s);
        s.len() as int
    }
}

/// A range that has whitespace on both sides and none at its two ends is
/// what trimming keeps.
pub proof fn lemma_trim_is_range(s: Seq<char>, lo: int, hi: int)
    requires
        0 <= lo <= hi <= s.len(),
        forall|i: int| 0 <= i < lo ==> is_whitespace(s[i]),
        forall|i: int| hi <= i < s.len() ==> is_whitespace(s[i]),
        lo < hi ==> !is_whitespace(s[lo]) && !is_whitespace(s[hi - 1]),
        lo == hi ==> hi == s.len(),
    ensures
        trim(s) == s.subrange(lo, hi),
{
    let cut = lemma_trim_start_is_suffix(s);
    assert(cut == lo) by {
        if cut < lo {
            assert(is_whitespace(s[cut]));
        } else if lo < cut {
            assert(is_whitespace(s[lo]));
        }
    }
    let tail = s.skip(lo);
    let keep = lemma_trim_end_is_prefix(tail);
    assert(keep == hi - lo) by {
        if keep < hi - lo {
            assert(tail[hi - lo - 1] == s[hi - 1]);
            assert(is_whitespace(tail[hi - lo - 1]));
        } else if hi - lo < keep {
            assert(tail[keep - 1] == s[lo + keep - 1]);
        }
    }
    assert(tail.take(hi - lo) =~= s.subrange(lo, hi));
}

/// A text that does not end with whitespace loses nothing at its end.
pub proof fn lemma_trim_end_of_tight(s: Seq<char>)
    requires
        s.len() > 0 ==> !is_whitespace(s.last()),
    ensures
        trim_end(s) == s,
{
}

/// Behind a prefix that neither begins nor ends with whitespace, trimming
/// takes away the whitespace at the end and nothing else.
pub proof fn lemma_trim_behind_prefix(prefix: Seq<char>, rest: Seq<char>)
    requires
        prefix.len() > 0,
        !is_whitespace(prefix.first()),
        !is_whitespace(prefix.last()),
    ensures
        trim(prefix + rest) == prefix + trim_end(rest),
{
    let whole = prefix + rest;
    let keep = lemma_trim_end_is_prefix(rest);
    let hi = prefix.len() + keep;
    assert forall|i: int| hi <= i < whole.len() implies is_whitespace(whole[i]) by {
        assert(whole[i] == rest[i - prefix.len()]);
    }
    assert(whole[0] == prefix.first());
    if keep > 0 {
        assert(whole[hi - 1] == rest[keep - 1]);
    } else {
        assert(whole[hi - 1] == prefix.last());
    }
    lemma_trim_is_range(whole, 0, hi);
    assert(whole.subrange(0, hi) =~= prefix + rest.take(keep));
}

/// Whitespace around a text does not change what trimming keeps of it.
pub proof fn lemma_trim_ignores_padding(before: Seq<char>, s: Seq<char>, after: Seq<char>)
    requires
        forall|i: int| 0 <= i < before.len() ==> is_whitespace(#[trigger] before[i]),
        forall|i: int| 0 <= i < after.len() ==> is_whitespace(#[trigger] after[i]),
    ensures
        trim(before + s + after) == trim(s),
{
    let whole = before + s + after;
    let cut = lemma_trim_start_is_suffix(s);
    let tail = s.skip(cut);
    let keep = lemma_trim_end_is_prefix(tail);
    assert(trim(s) =~= s.subrange(cut, cut + keep));
    if keep == 0 {
        // Nothing of `s` is kept, so `s` is whitespace throughout.
        assert(cut == s.len()) by {
            if cut < s.len() {
                assert(tail[0] == s[cut]);
            }
        }
        assert forall|i: int| 0 <= i < whole.len() implies is_whitespace(whole[i]) by {
            if i < before.len() {
                assert(whole[i] == before[i]);
            } else if i < before.len() + s.len() {
                assert(whole[i] == s[i - before.len()]);
            } else {
                assert(whole[i] == after[i - before.len() - s.len()]);
            }
        }
        lemma_trim_is_range(whole, whole.len() as int, whole.len() as int);
        assert(whole.subrange(whole.len() as int, whole.len() as int) =~= s.subrange(cut, cut));
    } else {
        let lo = before.len() + cut;
        let hi = lo + keep;
        assert forall|i: int| 0 <= i < lo implies is_whitespace(whole[i]) by {
            if i < before.len() {
                assert(whole[i] == before[i]);
            } else {
                assert(whole[i] == s[i - before.len()]);
            }
        }
        assert forall|i: int| hi <= i < whole.len() implies is_whitespace(whole[i]) by {
            if i < before.len() + s.len() {
                assert(whole[i] == s[i - before.len()]);
                assert(s[i - before.len()] == tail[i - before.len() - cut]);
            } else {
                assert(whole[i] == after[i - before.len() - s.len()]);
            }
        }
        assert(whole[lo] == s[cut]);
        assert(whole[hi - 1] == s[cut + keep - 1]);
        assert(s[cut + keep - 1] == tail[keep - 1]);
        lemma_trim_is_range(whole, lo, hi);
        assert(whole.subrange(lo, hi) =~= s.subrange(cut, cut + keep));
    }
}

/// The value of a digit string is at least the value of each of its prefixes.
pub proof fn lemma_decimal_value_grows(s: Seq<char>, n: int)
    requires
        0 <= n <= s.len(),
    ensures
        decimal_value(s.take(n)) <= decimal_value(s),
    decreases s.len(),
{
    if n == s.len() {
        assert(s.take(n) =~= s);
    } else {
        let rest = s.drop_last();
        lemma_decimal_value_grows(rest, n);
        assert(rest.take(n) =~= s.take(n));
    }
}

/// Collects the characters of `s` into a vector, in order.
pub fn to_chars(s: &str) -> (chars: Vec<char>)
    ensures
        chars@ == s@,
{
    let mut chars: Vec<char> = Vec::new();
    for c in it: s.chars()
        invariant
            it.seq() == s@,
            chars@ == s@.take(it.index() as int),
    {
        chars.push(c);
    }
    chars
}

/// Tests `c` for the Unicode property `White_Space`.
pub fn is_space(c: char) -> (space: bool)
    ensures
        space == is_whitespace(c),
{
    let n: u32 = c as u32;
    (0x09 <= n && n <= 0x0d) || n == 0x20 || n == 0x85 || n == 0xa0 || n == 0x1680 || (0x2000 <= n
        && n <= 0x200a) || n == 0x2028 || n == 0x2029 || n == 0x202f || n == 0x205f || n == 0x3000
}

/// Finds the range of `chars` that trimming keeps.
pub fn trim_bounds(chars: &Vec<char>) -> (bounds: (usize, usize))
    ensures
        bounds.0 <= bounds.1 <= chars@.len(),
        chars@.subrange(bounds.0 as int, bounds.1 as int) == trim(chars@),
{
    let len = chars.len();
    let mut lo: usize = 0;
    while lo < len && is_space(chars[lo])
        invariant
            lo <= len == chars@.len(),
            forall|i: int| 0 <= i < lo ==> is_whitespace(chars@[i]),
        decreases len - lo,
    {
        lo += 1;
    }
    let mut hi: usize = len;
    while hi > lo && is_space(chars[hi - 1])
        invariant
            lo <= hi <= len == chars@.len(),
            forall|i: int| hi <= i < len ==> is_whitespace(chars@[i]),
        decreases hi,
    {
        hi -= 1;
    }
    proof {
        if lo == hi && hi < len {
            // Everything before `lo` is whitespace, and `lo` stopped the first
            // loop, so it is the end of the input.
            assert(!is_whitespace(chars@[lo as int]));
            assert(is_whitespace(chars@[hi as int]));
        }
        lemma_trim_is_range(chars@, lo as int, hi as int);
    }
    (lo, hi)
}

/// Tests whether the range `lo..hi` of `chars` begins with `prefix`.
pub fn starts_with(chars: &Vec<char>, lo: usize, hi: usize, prefix: &Vec<char>) -> (found: bool)
    requires
        lo <= hi <= chars@.len(),
    ensures
        found == prefix@.is_prefix_of(chars@.subrange(lo as int, hi as int)),
{
    let n = prefix.len();
    if hi - lo < n {
        return false;
    }
    let ghost range = chars@.subrange(lo as int, hi as int);
    let mut i: usize = 0;
    while i < n
        invariant
            i <= n == prefix@.len(),
            lo + n <= hi <= chars@.len(),
            range == chars@.subrange(lo as int, hi as int),
            forall|j: int| 0 <= j < i ==> prefix@[j] == range[j],
        decreases n - i,
    {
        if chars[lo + i] != prefix[i] {
            proof {
                assert(range[i as int] == chars@[lo + i]);
                if prefix@.is_prefix_of(range) {
                    assert(range.subrange(0, n as int)[i as int] == prefix@[i as int]);
                }
            }
            return false;
        }
        proof {
            assert(range[i as int] == chars@[lo + i]);
        }
        i += 1;
    }
    proof {
        assert(range.subrange(0, n as int) =~= prefix@);
    }
    true
}

/// Finds the first `c` in the range `lo..hi` of `chars`; the result is `hi`
/// where there is none.
pub fn find(chars: &Vec<char>, lo: usize, hi: usize, c: char) -> (at: usize)
    requires
        lo <= hi <= chars@.len(),
    ensures
        lo <= at <= hi,
        at - lo == position(chars@.subrange(lo as int, hi as int), c),
{
    let ghost range = chars@.subrange(lo as int, hi as int);
    let mut at: usize = lo;
    while at < hi && chars[at] != c
        invariant
            lo <= at <= hi <= chars@.len(),
            range == chars@.subrange(lo as int, hi as int),
            forall|i: int| 0 <= i < at - lo ==> range[i] != c,
        decreases hi - at,
    {
        proof {
            assert(range[at - lo] == chars@[at as int]);
        }
        at += 1;
    }
    proof {
        if at < hi {
            assert(range[at - lo] == chars@[at as int]);
        }
        lemma_position_is(range, c, at - lo);
    }
    at
}

/// Reads the range `lo..hi` of `chars` as a 16-bit unsigned number.
pub fn read_u16(chars: &Vec<char>, lo: usize, hi: usize) -> (number: Option<u16>)
    requires
        lo <= hi <= chars@.len(),
    ensures
        number == parse_u16(chars@.subrange(lo as int, hi as int)),
{
    let ghost text = chars@.subrange(lo as int, hi as int);
    let start: usize = if lo < hi && chars[lo] == '+' {
        lo + 1
    } else {
        lo
    };
    let ghost digits = chars@.subrange(start as int, hi as int);
    proof {
        if start > lo {
            assert(text.first() == chars@[lo as int]);
        } else if lo < hi {
            assert(text.first() == chars@[lo as int]);
        }
        assert(unsigned_digits(text) =~= digits);
    }
    if start == hi {
        return None;
    }
    let mut value: u32 = 0;
    let mut i: usize = start;
    while i < hi
        invariant
            start <= i <= hi <= chars@.len(),
            start < hi,
            text == chars@.subrange(lo as int, hi as int),
            digits == chars@.subrange(start as int, hi as int),
            digits == unsigned_digits(text),
            all_digits(digits.take(i - start)),
            value == decimal_value(digits.take(i - start)),
            value <= u16::MAX,
        decreases hi - i,
    {
        let c = chars[i];
        let ghost seen = digits.take(i - start);
        let ghost next = digits.take(i + 1 - start);
        proof {
            assert(digits[i - start] == c);
            assert(next.drop_last() =~= seen);
            assert(next.last() == c);
        }
        if !('0' <= c && c <= '9') {
            proof {
                assert(!is_digit(digits[i - start]));
            }
            return None;
        }
        let d: u32 = c as u32 - '0' as u32;
        value = value * 10 + d;
        if value > 65535 {
            proof {
                lemma_decimal_value_grows(digits, i + 1 - start);
            }
            return None;
        }
        proof {
            assert forall|j: int| 0 <= j < next.len() implies is_digit(#[trigger] next[j]) by {
                if j < seen.len() {
                    assert(next[j] == seen[j]);
                }
            }
        }
        i += 1;
    }
    proof {
        assert(digits.take(hi - start) =~= digits);
    }
    Some(value as u16)
}

/// Copies the range `lo..hi` of the characters of `s` into a new string.
pub fn slice_to_string(s: &str, lo: usize, hi: usize) -> (part: String)
    requires
        lo <= hi <= s@.len(),
    ensures
        part@ == s@.subrange(lo as int, hi as int),
{
    s.substring_char(lo, hi).to_owned()
}

} // verus!
