//! Character-level helpers for the few places the board compares or takes
//! apart text.

use vstd::prelude::*;

verus! {

/// Whether two strings hold the same characters.
pub fn same_text(a: &str, b: &str) -> (same: bool)
    ensures
        same == (a@ == b@),
{
    let length = a.unicode_len();
    if length != b.unicode_len() {
        return false;
    }
    let mut index: usize = 0;
    while index < length
        invariant
            0 <= index <= length,
            length == a@.len(),
            length == b@.len(),
            forall|k: int| 0 <= k < index ==> a@[k] == b@[k],
        decreases length - index,
    {
        if a.get_char(index) != b.get_char(index) {
            return false;
        }
        index += 1;
    }
    assert(a@ =~= b@);
    true
}

/// The characters `char::is_whitespace` recognises: the Unicode White_Space
/// property.
pub open spec fn is_space(c: char) -> bool {
    let n = c as u32;
    ||| 0x09 <= n <= 0x0d
    ||| n == 0x20
    ||| n == 0x85
    ||| n == 0xa0
    ||| n == 0x1680
    ||| 0x2000 <= n <= 0x200a
    ||| n == 0x2028
    ||| n == 0x2029
    ||| n == 0x202f
    ||| n == 0x205f
    ||| n == 0x3000
}

/// Whether `c` is white space, in the sense of [`is_space`].
pub fn is_whitespace(c: char) -> (space: bool)
    ensures
        space == is_space(c),
{
    let n = c as u32;
    (0x09 <= n && n <= 0x0d) || n == 0x20 || n == 0x85 || n == 0xa0 || n == 0x1680 || (0x2000 <= n
        && n <= 0x200a) || n == 0x2028 || n == 0x2029 || n == 0x202f || n == 0x205f || n == 0x3000
}

/// How many characters `s` starts with that `matches` picks out.
pub open spec fn leading_matches(s: Seq<char>, matches: spec_fn(char) -> bool) -> int
    decreases s.len(),
{
    if s.len() > 0 && matches(s[0]) {
        1 + leading_matches(s.subrange(1, s.len() as int), matches)
    } else {
        0
    }
}

/// How many characters `s` ends with that `matches` picks out.
pub open spec fn trailing_matches(s: Seq<char>, matches: spec_fn(char) -> bool) -> int
    decreases s.len(),
{
    if s.len() > 0 && matches(s[s.len() - 1]) {
        1 + trailing_matches(s.subrange(0, s.len() - 1), matches)
    } else {
        0
    }
}

/// `s` with the characters `matches` picks out removed from both ends, as
/// `str::trim_matches` does.
pub open spec fn stripped(s: Seq<char>, matches: spec_fn(char) -> bool) -> Seq<char> {
    let rest = s.subrange(leading_matches(s, matches), s.len() as int);
    rest.subrange(0, rest.len() - trailing_matches(rest, matches))
}

/// The characters `str::trim` removes, or the double quote that
/// `trim_matches('"')` removes.
pub open spec fn strip_set(quotes: bool) -> spec_fn(char) -> bool {
    if quotes {
        |c: char| c == '"'
    } else {
        |c: char| is_space(c)
    }
}

/// `s` with white space removed from both ends, as `str::trim` does.
pub open spec fn trimmed(s: Seq<char>) -> Seq<char> {
    stripped(s, strip_set(false))
}

/// `s` with double quotes removed from both ends, as `trim_matches('"')`
/// does.
pub open spec fn unquoted(s: Seq<char>) -> Seq<char> {
    stripped(s, strip_set(true))
}

fn is_stripped(c: char, quotes: bool) -> (strip: bool)
    ensures
        strip == strip_set(quotes)(c),
{
    if quotes {
        c == '"'
    } else {
        is_whitespace(c)
    }
}

/// The characters of `text`, one by one.
pub fn chars_of(text: &str) -> (chars: Vec<char>)
    ensures
        chars@ == text@,
{
    let length = text.unicode_len();
    let mut chars: Vec<char> = Vec::new();
    let mut index: usize = 0;
    while index < length
        invariant
            0 <= index <= length,
            length == text@.len(),
            chars@ == text@.subrange(0, index as int),
        decreases length - index,
    {
        chars.push(text.get_char(index));
        index += 1;
        assert(chars@ =~= text@.subrange(0, index as int));
    }
    assert(chars@ =~= text@);
    chars
}

/// The bounds of `chars[lo..hi]` once white space (or, with `quotes`,
/// double quotes) is stripped from both ends.
pub fn strip_range(chars: &Vec<char>, lo: usize, hi: usize, quotes: bool) -> (range: (usize, usize))
    requires
        lo <= hi <= chars@.len(),
    ensures
        lo <= range.0 <= range.1 <= hi,
        chars@.subrange(range.0 as int, range.1 as int) == stripped(chars@.subrange(lo as int, hi as int), strip_set(quotes)),
{
    let ghost matches = strip_set(quotes);
    let ghost whole = chars@.subrange(lo as int, hi as int);
    let mut start = lo;
    while start < hi && is_stripped(chars[start], quotes)
        invariant
            lo <= start <= hi <= chars@.len(),
            matches == strip_set(quotes),
            whole == chars@.subrange(lo as int, hi as int),
            leading_matches(whole, matches) == (start - lo) + leading_matches(chars@.subrange(start as int, hi as int), matches),
        decreases hi - start,
    {
        proof {
            let here = chars@.subrange(start as int, hi as int);
            assert(here.subrange(1, here.len() as int) =~= chars@.subrange(start + 1, hi as int));
        }
        start += 1;
    }
    proof {
        let here = chars@.subrange(start as int, hi as int);
        assert(leading_matches(here, matches) == 0);
        assert(whole.subrange(leading_matches(whole, matches), whole.len() as int) =~= here);
    }
    let ghost rest = chars@.subrange(start as int, hi as int);
    let mut end = hi;
    while end > start && is_stripped(chars[end - 1], quotes)
        invariant
            lo <= start <= end <= hi <= chars@.len(),
            matches == strip_set(quotes),
            rest == chars@.subrange(start as int, hi as int),
            trailing_matches(rest, matches) == (hi - end) + trailing_matches(chars@.subrange(start as int, end as int), matches),
        decreases end - start,
    {
        proof {
            let here = chars@.subrange(start as int, end as int);
            assert(here.subrange(0, here.len() - 1) =~= chars@.subrange(start as int, end - 1));
        }
        end -= 1;
    }
    proof {
        let here = chars@.subrange(start as int, end as int);
        assert(trailing_matches(here, matches) == 0);
        assert(rest.subrange(0, rest.len() - trailing_matches(rest, matches)) =~= here);
    }
    (start, end)
}

/// Where the first `c` in `s` is, or the length of `s` when there is none.
pub open spec fn first_index_of(s: Seq<char>, c: char) -> int
    decreases s.len(),
{
    if s.len() == 0 {
        0
    } else if s[0] == c {
        0
    } else {
        1 + first_index_of(s.subrange(1, s.len() as int), c)
    }
}

/// Where the first `c` in `chars[lo..hi]` is, or `hi` when there is none.
pub fn find_char(chars: &Vec<char>, lo: usize, hi: usize, c: char) -> (found: usize)
    requires
        lo <= hi <= chars@.len(),
    ensures
        lo <= found <= hi,
        found - lo == first_index_of(chars@.subrange(lo as int, hi as int), c),
{
    let ghost whole = chars@.subrange(lo as int, hi as int);
    let mut index = lo;
    while index < hi && chars[index] != c
        invariant
            lo <= index <= hi <= chars@.len(),
            whole == chars@.subrange(lo as int, hi as int),
            first_index_of(whole, c) == (index - lo) + first_index_of(chars@.subrange(index as int, hi as int), c),
        decreases hi - index,
    {
        proof {
            let here = chars@.subrange(index as int, hi as int);
            assert(here.subrange(1, here.len() as int) =~= chars@.subrange(index + 1, hi as int));
        }
        index += 1;
    }
    index
}

/// Whether `chars[lo..hi]` spells `word`.
pub fn range_is(chars: &Vec<char>, lo: usize, hi: usize, word: &str) -> (same: bool)
    requires
        lo <= hi <= chars@.len(),
    ensures
        same == (chars@.subrange(lo as int, hi as int) == word@),
{
    let length = word.unicode_len();
    if hi - lo != length {
        return false;
    }
    let mut index: usize = 0;
    while index < length
        invariant
            0 <= index <= length,
            length == word@.len(),
            hi - lo == length,
            lo <= hi <= chars@.len(),
            forall|k: int| 0 <= k < index ==> chars@[lo + k] == word@[k],
        decreases length - index,
    {
        if chars[lo + index] != word.get_char(index) {
            return false;
        }
        index += 1;
    }
    assert(chars@.subrange(lo as int, hi as int) =~= word@);
    true
}

/// An ASCII decimal digit.
pub open spec fn is_digit(c: char) -> bool {
    '0' <= c <= '9'
}

/// The number a run of decimal digits spells.
pub open spec fn decimal(digits: Seq<char>) -> int
    decreases digits.len(),
{
    if digits.len() == 0 {
        0
    } else {
        decimal(digits.subrange(0, digits.len() - 1)) * 10 + (digits[digits.len() - 1] as int - '0' as int)
    }
}

/// `s` without the `+` it may start with.
pub open spec fn unsigned_digits(s: Seq<char>) -> Seq<char> {
    if s.len() > 0 && s[0] == '+' { s.subrange(1, s.len() as int) } else { s }
}

/// Every character of `s` is a decimal digit.
pub open spec fn all_digits(s: Seq<char>) -> bool {
    forall|i: int| 0 <= i < s.len() ==> is_digit(#[trigger] s[i])
}

/// What `str::parse::<u32>` gives for `s`: an optional `+`, then at least one
/// decimal digit and nothing else, spelling a number that fits in 32 bits.
pub open spec fn parsed_u32(s: Seq<char>) -> Option<u32> {
    let digits = unsigned_digits(s);
    if digits.len() > 0 && all_digits(digits) && decimal(digits) <= u32::MAX {
        Some(decimal(digits) as u32)
    } else {
        None
    }
}

proof fn lemma_decimal_grows(digits: Seq<char>, k: int)
    requires
        0 <= k <= digits.len(),
        all_digits(digits),
    ensures
        decimal(digits) >= decimal(digits.subrange(0, k)) >= 0,
    decreases digits.len() - k,
{
    if k == digits.len() {
        assert(digits.subrange(0, k) =~= digits);
        lemma_decimal_nonnegative(digits);
    } else {
        let shorter = digits.subrange(0, digits.len() - 1);
        lemma_decimal_grows(shorter, k);
        assert(shorter.subrange(0, k) =~= digits.subrange(0, k));
        lemma_decimal_nonnegative(shorter);
    }
}

proof fn lemma_decimal_nonnegative(digits: Seq<char>)
    requires
        all_digits(digits),
    ensures
        decimal(digits) >= 0,
    decreases digits.len(),
{
    if digits.len() > 0 {
        lemma_decimal_nonnegative(digits.subrange(0, digits.len() - 1));
    }
}

/// Parses `chars[lo..hi]` as `str::parse::<u32>` would.
pub fn parse_u32(chars: &Vec<char>, lo: usize, hi: usize) -> (parsed: Option<u32>)
    requires
        lo <= hi <= chars@.len(),
    ensures
        parsed == parsed_u32(chars@.subrange(lo as int, hi as int)),
{
    let ghost s = chars@.subrange(lo as int, hi as int);
    let mut start = lo;
    if start < hi && chars[start] == '+' {
        start += 1;
    }
    let ghost digits = chars@.subrange(start as int, hi as int);
    assert(digits =~= unsigned_digits(s));
    if start == hi {
        return None;
    }
    let mut value: u64 = 0;
    let mut index = start;
    while index < hi
        invariant
            lo <= start <= index <= hi <= chars@.len(),
            digits == chars@.subrange(start as int, hi as int),
            s == chars@.subrange(lo as int, hi as int),
            digits == unsigned_digits(s),
            forall|i: int| start <= i < index ==> is_digit(#[trigger] chars@[i]),
            value == decimal(chars@.subrange(start as int, index as int)),
            value <= u32::MAX,
        decreases hi - index,
    {
        let c = chars[index];
        if c < '0' || c > '9' {
            assert(!is_digit(digits[index - start]));
            assert(!all_digits(digits));
            return None;
        }
        let digit = (c as u32 - '0' as u32) as u64;
        proof {
            let prefix = chars@.subrange(start as int, index + 1);
            assert(prefix.subrange(0, prefix.len() - 1) =~= chars@.subrange(start as int, index as int));
        }
        value = value * 10 + digit;
        index += 1;
        if value > u32::MAX as u64 {
            proof {
                assert(digits.subrange(0, index - start) =~= chars@.subrange(start as int, index as int));
                if all_digits(digits) {
                    lemma_decimal_grows(digits, index - start);
                }
            }
            return None;
        }
    }
    assert(digits =~= chars@.subrange(start as int, index as int));
    assert forall|i: int| 0 <= i < digits.len() implies is_digit(#[trigger] digits[i]) by {
        assert(digits[i] == chars@[start + i]);
    }
    assert(all_digits(digits));
    Some(value as u32)
}

} // verus!
