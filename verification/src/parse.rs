//! Reading numbers and words out of text, as the telemetry readings and the
//! answers of the file transfer agent need it.

use vstd::prelude::*;
use vstd::slice::slice_subrange;
use crate::text::{digits_value, is_digit};

verus! {

/// Whether `c` is white space: one of the characters with the Unicode
/// property `White_Space`.
pub open spec fn is_space(c: char) -> bool {
    let u = c as u32;
    (0x09 <= u <= 0x0D) || u == 0x20 || u == 0x85 || u == 0xA0 || u == 0x1680 || (0x2000 <= u
        <= 0x200A) || u == 0x2028 || u == 0x2029 || u == 0x202F || u == 0x205F || u == 0x3000
}

/// The first position at or after `from` that holds no white space, or the
/// end of `s`.
pub open spec fn skip_spaces(s: Seq<char>, from: int) -> int
    decreases s.len() - from,
{
    if 0 <= from < s.len() && is_space(s[from]) {
        skip_spaces(s, from + 1)
    } else {
        from
    }
}

/// The first position at or after `from` that holds white space, or the
/// end of `s`.
pub open spec fn skip_word(s: Seq<char>, from: int) -> int
    decreases s.len() - from,
{
    if 0 <= from < s.len() && !is_space(s[from]) {
        skip_word(s, from + 1)
    } else {
        from
    }
}

/// The word number `n`, counted from 0, among the words that follow
/// position `from`: the runs of characters between white space.
pub open spec fn nth_word(s: Seq<char>, from: int, n: nat) -> Option<Seq<char>>
    decreases n,
{
    let start = skip_spaces(s, from);
    let end = skip_word(s, start);
    if start >= s.len() {
        None
    } else if n == 0 {
        Some(s.subrange(start, end))
    } else {
        nth_word(s, end, (n - 1) as nat)
    }
}

/// `s` without the white space at its end.
pub open spec fn trim_end(s: Seq<char>) -> Seq<char>
    decreases s.len(),
{
    if s.len() > 0 && is_space(s.last()) {
        trim_end(s.drop_last())
    } else {
        s
    }
}

/// `s` without the white space at its start and at its end.
pub open spec fn trim(s: Seq<char>) -> Seq<char> {
    trim_end(s.skip(skip_spaces(s, 0)))
}

/// `s` without the run of `c` at its end.
pub open spec fn strip_trailing(s: Seq<char>, c: char) -> Seq<char>
    decreases s.len(),
{
    if s.len() > 0 && s.last() == c {
        strip_trailing(s.drop_last(), c)
    } else {
        s
    }
}

/// Whether `s` begins with `prefix`.
pub open spec fn starts_with(s: Seq<char>, prefix: Seq<char>) -> bool {
    prefix.len() <= s.len() && s.take(prefix.len() as int) == prefix
}

/// Whether `s` holds decimal digits only.
pub open spec fn all_digits(s: Seq<char>) -> bool {
    forall|i: int| 0 <= i < s.len() ==> is_digit(#[trigger] s[i])
}

/// The number that `s` writes where it is one or more decimal digits and
/// nothing else.
pub open spec fn digits_number(s: Seq<char>) -> Option<nat> {
    if s.len() > 0 && all_digits(s) {
        Some(digits_value(s))
    } else {
        None
    }
}

/// The number that `s` writes without a sign: one or more decimal digits,
/// with or without a plus sign before them. Anything else writes no
/// number.
pub open spec fn unsigned_value(s: Seq<char>) -> Option<nat> {
    if s.len() > 0 && s[0] == '+' {
        digits_number(s.skip(1))
    } else {
        digits_number(s)
    }
}

/// The integer that `s` writes: one or more decimal digits, with or
/// without a sign before them.
pub open spec fn signed_value(s: Seq<char>) -> Option<int> {
    if s.len() > 0 && s[0] == '-' {
        match digits_number(s.skip(1)) {
            Some(v) => Some(-(v as int)),
            None => None,
        }
    } else {
        match unsigned_value(s) {
            Some(v) => Some(v as int),
            None => None,
        }
    }
}

/// The number that the digits `s` write, where it is at most `max`.
pub open spec fn digits_up_to(s: Seq<char>, max: u64) -> Option<u64> {
    match digits_number(s) {
        Some(v) => if v <= max {
            Some(v as u64)
        } else {
            None
        },
        None => None,
    }
}

/// The number that `s` writes, where it is at most `max`.
pub open spec fn number_up_to(s: Seq<char>, max: u64) -> Option<u64> {
    match unsigned_value(s) {
        Some(v) => if v <= max {
            Some(v as u64)
        } else {
            None
        },
        None => None,
    }
}

/// A value read from text, or 0 where there was none to read.
pub open spec fn or_zero(value: Option<u64>) -> u64 {
    match value {
        Some(v) => v,
        None => 0,
    }
}

/// The characters of `s`.
pub fn to_chars(s: &str) -> (chars: Vec<char>)
    ensures
        chars@ == s@,
{
    let mut chars: Vec<char> = Vec::new();
    for c in it: s.chars()
        invariant
            it.seq() == s@,
            chars@ == s@.take(it.index() as int),
    {
        chars.push(c);
        assert(chars@ =~= s@.take(it.index() + 1));
    }
    assert(chars@ =~= s@);
    chars
}

/// Whether `c` is white space.
pub fn is_space_char(c: char) -> (space: bool)
    ensures
        space == is_space(c),
{
    let u: u32 = c as u32;
    (0x09 <= u && u <= 0x0D) || u == 0x20 || u == 0x85 || u == 0xA0 || u == 0x1680 || (0x2000 <= u
        && u <= 0x200A) || u == 0x2028 || u == 0x2029 || u == 0x202F || u == 0x205F || u
        == 0x3000
}

/// The first position at or after `from` that holds no white space.
pub(crate) fn find_word(s: &[char], from: usize) -> (start: usize)
    requires
        from <= s@.len(),
    ensures
        start == skip_spaces(s@, from as int),
        from <= start <= s@.len(),
{
    let mut i: usize = from;
    while i < s.len() && is_space_char(s[i])
        invariant
            from <= i <= s@.len(),
            skip_spaces(s@, from as int) == skip_spaces(s@, i as int),
        decreases s@.len() - i,
    {
        i = i + 1;
    }
    i
}

/// The first position at or after `from` that holds white space.
pub(crate) fn find_space(s: &[char], from: usize) -> (end: usize)
    requires
        from <= s@.len(),
    ensures
        end == skip_word(s@, from as int),
        from <= end <= s@.len(),
{
    let mut i: usize = from;
    while i < s.len() && !is_space_char(s[i])
        invariant
            from <= i <= s@.len(),
            skip_word(s@, from as int) == skip_word(s@, i as int),
        decreases s@.len() - i,
    {
        i = i + 1;
    }
    i
}

/// The word number `n` of `s`, counted from 0, as the range of positions
/// that it fills.
pub fn word_bounds(s: &[char], n: usize) -> (bounds: Option<(usize, usize)>)
    ensures
        match bounds {
            Some((start, end)) => start <= end <= s@.len() && nth_word(s@, 0, n as nat) == Some(
                s@.subrange(start as int, end as int),
            ),
            None => nth_word(s@, 0, n as nat) is None,
        },
{
    let mut from: usize = 0;
    let mut left: usize = n;
    loop
        invariant
            from <= s@.len(),
            left <= n,
            nth_word(s@, 0, n as nat) == nth_word(s@, from as int, left as nat),
        decreases left,
    {
        let start = find_word(s, from);
        if start >= s.len() {
            return None;
        }
        let end = find_space(s, start);
        if left == 0 {
            return Some((start, end));
        }
        from = end;
        left = left - 1;
    }
}

/// The digits of a number never write less than the digits before them.
pub proof fn lemma_digits_value_grows(s: Seq<char>, k: int)
    requires
        all_digits(s),
        0 <= k <= s.len(),
    ensures
        digits_value(s.take(k)) <= digits_value(s),
    decreases s.len() - k,
{
    if k == s.len() {
        assert(s.take(k) =~= s);
    } else {
        lemma_digits_value_grows(s, k + 1);
        let longer = s.take(k + 1);
        assert(longer.drop_last() =~= s.take(k));
        assert(is_digit(s[k]));
        assert(longer.last() == s[k]);
    }
}

/// Reads a number of at most `max` from the digits `s`.
pub fn parse_digits(s: &[char], max: u64) -> (value: Option<u64>)
    ensures
        value == digits_up_to(s@, max),
{
    let n: usize = s.len();
    if n == 0 {
        return None;
    }
    let mut acc: u64 = 0;
    let mut i: usize = 0;
    assert(s@.take(0) =~= Seq::<char>::empty());
    while i < n
        invariant
            i <= n,
            0 < n,
            n == s@.len(),
            all_digits(s@.take(i as int)),
            acc == digits_value(s@.take(i as int)),
            acc <= max,
        decreases n - i,
    {
        let c: char = s[i];
        if !(c >= '0' && c <= '9') {
            assert(!is_digit(s@[i as int]));
            return None;
        }
        let d: u64 = (c as u32 - 48) as u64;
        proof {
            let longer = s@.take(i + 1);
            assert(longer.drop_last() =~= s@.take(i as int));
            assert(longer.last() == c);
            assert forall|k: int| 0 <= k < longer.len() implies is_digit(#[trigger] longer[k]) by {
                if k < i {
                    assert(s@.take(i as int)[k] == longer[k]);
                }
            }
            assert(digits_value(longer) == acc * 10 + d);
        }
        if d > max || acc > (max - d) / 10 {
            proof {
                assert(acc * 10 + d > max);
                if all_digits(s@) {
                    lemma_digits_value_grows(s@, i + 1);
                }
            }
            return None;
        }
        acc = acc * 10 + d;
        i = i + 1;
    }
    assert(s@.take(i as int) =~= s@);
    Some(acc)
}

/// Reads a number of at most `max` from `s`, which may begin with a plus
/// sign.
pub fn parse_number(s: &[char], max: u64) -> (value: Option<u64>)
    ensures
        value == number_up_to(s@, max),
{
    if s.len() > 0 && s[0] == '+' {
        let rest = slice_subrange(s, 1, s.len());
        assert(rest@ =~= s@.skip(1));
        parse_digits(rest, max)
    } else {
        parse_digits(s, max)
    }
}

/// The integer that `s` writes, where it fits in 32 bits.
pub open spec fn integer_in_i32(s: Seq<char>) -> Option<i32> {
    match signed_value(s) {
        Some(v) => if i32::MIN <= v <= i32::MAX {
            Some(v as i32)
        } else {
            None
        },
        None => None,
    }
}

/// Reads a 32-bit integer from `s`, which may begin with a sign.
pub fn parse_integer(s: &[char]) -> (value: Option<i32>)
    ensures
        value == integer_in_i32(s@),
{
    if s.len() > 0 && s[0] == '-' {
        let rest = slice_subrange(s, 1, s.len());
        assert(rest@ =~= s@.skip(1));
        match parse_digits(rest, 2147483648) {
            Some(magnitude) => Some((0 - magnitude as i64) as i32),
            None => None,
        }
    } else {
        match parse_number(s, 2147483647) {
            Some(magnitude) => Some(magnitude as i32),
            None => None,
        }
    }
}

/// The part of `s` that is left without the white space at its start and
/// at its end, as a range of positions.
pub fn trim_bounds(s: &[char]) -> (bounds: (usize, usize))
    ensures
        bounds.0 <= bounds.1 <= s@.len(),
        s@.subrange(bounds.0 as int, bounds.1 as int) == trim(s@),
{
    let start = find_word(s, 0);
    let mut end: usize = s.len();
    assert(s@.subrange(start as int, end as int) =~= s@.skip(start as int));
    while end > start && is_space_char(s[end - 1])
        invariant
            start <= end <= s@.len(),
            trim(s@) == trim_end(s@.subrange(start as int, end as int)),
        decreases end,
    {
        assert(s@.subrange(start as int, end as int).drop_last() =~= s@.subrange(
            start as int,
            end - 1,
        ));
        end = end - 1;
    }
    (start, end)
}

/// Where `s` ends once the run of `c` at its end is taken off.
pub fn strip_trailing_end(s: &[char], c: char) -> (end: usize)
    ensures
        end <= s@.len(),
        s@.take(end as int) == strip_trailing(s@, c),
{
    let mut end: usize = s.len();
    assert(s@.take(end as int) =~= s@);
    while end > 0 && s[end - 1] == c
        invariant
            end <= s@.len(),
            strip_trailing(s@, c) == strip_trailing(s@.take(end as int), c),
        decreases end,
    {
        assert(s@.take(end as int).drop_last() =~= s@.take(end - 1));
        end = end - 1;
    }
    end
}

/// Whether `s` begins with `prefix`.
pub fn has_prefix(s: &[char], prefix: &[char]) -> (found: bool)
    ensures
        found == starts_with(s@, prefix@),
{
    if prefix.len() > s.len() {
        return false;
    }
    let mut i: usize = 0;
    while i < prefix.len()
        invariant
            i <= prefix@.len() <= s@.len(),
            s@.take(i as int) == prefix@.take(i as int),
        decreases prefix@.len() - i,
    {
        if s[i] != prefix[i] {
            assert(s@.take(prefix@.len() as int)[i as int] != prefix@[i as int]);
            return false;
        }
        assert(s@.take(i + 1) =~= s@.take(i as int).push(s@[i as int]));
        assert(prefix@.take(i + 1) =~= prefix@.take(i as int).push(prefix@[i as int]));
        i = i + 1;
    }
    assert(prefix@.take(i as int) =~= prefix@);
    true
}

/// The first position at or after `from` that holds a line feed, or the
/// end of `s`.
pub open spec fn line_end(s: Seq<char>, from: int) -> int
    decreases s.len() - from,
{
    if 0 <= from < s.len() && s[from] != '\n' {
        line_end(s, from + 1)
    } else {
        from
    }
}

/// A line ends at or after the position where it begins, and within the
/// text.
pub proof fn lemma_line_end_bounds(s: Seq<char>, from: int)
    requires
        0 <= from <= s.len(),
    ensures
        from <= line_end(s, from) <= s.len(),
    decreases s.len() - from,
{
    if from < s.len() && s[from] != '\n' {
        lemma_line_end_bounds(s, from + 1);
    }
}

/// The end of the line that begins at `from`.
pub(crate) fn find_line_end(s: &[char], from: usize) -> (end: usize)
    requires
        from <= s@.len(),
    ensures
        end == line_end(s@, from as int),
        from <= end <= s@.len(),
{
    let mut i: usize = from;
    while i < s.len() && s[i] != '\n'
        invariant
            from <= i <= s@.len(),
            line_end(s@, from as int) == line_end(s@, i as int),
        decreases s@.len() - i,
    {
        i = i + 1;
    }
    i
}

} // verus!
