//! Text helpers shared by the record parser and the traversal engine:
//! trimming of surrounding whitespace, and decimal numerals read with a
//! fallback value in place of an error.

use vstd::prelude::*;

verus! {

/// Whether `c` counts as whitespace: the answer of `char::is_whitespace`,
/// which goes by Unicode's `White_Space` property.
pub uninterp spec fn white_space(c: char) -> bool;

/// `char::is_whitespace` decides by the character alone; its answer is what
/// [`white_space`] stands for. Nothing is claimed about which characters
/// those are.
pub assume_specification[ char::is_whitespace ](c: char) -> (b: bool)
    ensures
        b == white_space(c),
;

/// `s` without its leading whitespace.
pub open spec fn trim_start(s: Seq<char>) -> Seq<char>
    decreases s.len(),
{
    if s.len() > 0 && white_space(s[0]) {
        trim_start(s.drop_first())
    } else {
        s
    }
}

/// `s` without its trailing whitespace.
pub open spec fn trim_end(s: Seq<char>) -> Seq<char>
    decreases s.len(),
{
    if s.len() > 0 && white_space(s.last()) {
        trim_end(s.drop_last())
    } else {
        s
    }
}

/// `s` without the whitespace that surrounds it.
pub open spec fn trimmed(s: Seq<char>) -> Seq<char> {
    trim_end(trim_start(s))
}

/// Whether `c` is one of the ten ASCII decimal digits.
pub open spec fn is_digit(c: char) -> bool {
    '0' <= c <= '9'
}

/// The value of a decimal digit.
pub open spec fn digit_value(c: char) -> nat {
    (c as int - '0' as int) as nat
}

/// Whether every character of `s` is a decimal digit.
pub open spec fn all_digits(s: Seq<char>) -> bool {
    forall|i: int| 0 <= i < s.len() ==> is_digit(#[trigger] s[i])
}

/// The number written by a run of decimal digits, most significant first.
pub open spec fn decimal_value(digits: Seq<char>) -> nat
    decreases digits.len(),
{
    if digits.len() == 0 {
        0
    } else {
        decimal_value(digits.drop_last()) * 10 + digit_value(digits.last())
    }
}

/// The number written by `s` when `s` is a non-empty run of digits.
pub open spec fn digits_numeral(s: Seq<char>) -> Option<nat> {
    if s.len() > 0 && all_digits(s) {
        Some(decimal_value(s))
    } else {
        None
    }
}

/// The number written by an unsigned numeral: an optional `+`, then one or
/// more digits and nothing else.
pub open spec fn unsigned_numeral(s: Seq<char>) -> Option<nat> {
    if s.len() > 0 && s[0] == '+' {
        digits_numeral(s.drop_first())
    } else {
        digits_numeral(s)
    }
}

/// The number written by a signed numeral: an optional `+` or `-`, then one
/// or more digits and nothing else.
pub open spec fn signed_numeral(s: Seq<char>) -> Option<int> {
    if s.len() > 0 && s[0] == '-' {
        match digits_numeral(s.drop_first()) {
            Some(n) => Some(-(n as int)),
            None => None,
        }
    } else {
        match unsigned_numeral(s) {
            Some(n) => Some(n as int),
            None => None,
        }
    }
}

/// The `i32` that `s` writes, or `default` where `s` is no signed numeral or
/// its number does not fit.
pub open spec fn i32_or(s: Seq<char>, default: i32) -> i32 {
    match signed_numeral(s) {
        Some(v) => if i32::MIN <= v <= i32::MAX {
            v as i32
        } else {
            default
        },
        None => default,
    }
}

/// The `usize` that `s` writes, or `default` where `s` is no unsigned numeral
/// or its number does not fit.
pub open spec fn usize_or(s: Seq<char>, default: usize) -> usize {
    match unsigned_numeral(s) {
        Some(v) => if v <= usize::MAX {
            v as usize
        } else {
            default
        },
        None => default,
    }
}

/// Dropping `a` leading whitespace characters, where the next one is none,
/// is what `trim_start` does.
proof fn lemma_trim_start(s: Seq<char>, a: int)
    requires
        0 <= a <= s.len(),
        forall|i: int| 0 <= i < a ==> white_space(#[trigger] s[i]),
        a == s.len() || !white_space(s[a]),
    ensures
        trim_start(s) == s.subrange(a, s.len() as int),
    decreases a,
{
    if a == 0 {
        assert(s.subrange(0, s.len() as int) =~= s);
    } else {
        let rest = s.drop_first();
        assert forall|i: int| 0 <= i < a - 1 implies white_space(#[trigger] rest[i]) by {
            assert(rest[i] == s[i + 1]);
        }
        lemma_trim_start(rest, a - 1);
        assert(rest.subrange(a - 1, rest.len() as int) =~= s.subrange(a, s.len() as int));
    }
}

/// Keeping the first `b` characters, where all later ones are whitespace and
/// the last one kept is none, is what `trim_end` does.
proof fn lemma_trim_end(s: Seq<char>, b: int)
    requires
        0 <= b <= s.len(),
        forall|i: int| b <= i < s.len() ==> white_space(#[trigger] s[i]),
        b == 0 || !white_space(s[b - 1]),
    ensures
        trim_end(s) == s.subrange(0, b),
    decreases s.len() - b,
{
    if b == s.len() {
        assert(s.subrange(0, b) =~= s);
    } else {
        let rest = s.drop_last();
        lemma_trim_end(rest, b);
        assert(rest.subrange(0, b) =~= s.subrange(0, b));
    }
}

/// Returns `text` without the whitespace that surrounds it.
pub fn trim(text: &str) -> (r: &str)
    ensures
        r@ == trimmed(text@),
{
    let len: usize = text.unicode_len();
    let mut start: usize = 0;
    let mut end: usize = 0;
    let mut n: usize = 0;
    for c in it: text.chars()
        invariant
            it.seq() == text@,
            len == text@.len(),
            n == it.index(),
            start <= end <= n,
            forall|i: int| 0 <= i < start ==> white_space(#[trigger] text@[i]),
            forall|i: int| end <= i < n ==> white_space(#[trigger] text@[i]),
            start == end ==> start == n,
            start < end ==> !white_space(text@[start as int]) && !white_space(text@[end - 1]),
    {
        if c.is_whitespace() {
            if start == end {
                start = n + 1;
                end = n + 1;
            }
        } else {
            end = n + 1;
        }
        n = n + 1;
    }
    proof {
        let s = text@;
        lemma_trim_start(s, start as int);
        let tail = s.subrange(start as int, s.len() as int);
        assert forall|i: int| end - start <= i < tail.len() implies white_space(
            #[trigger] tail[i],
        ) by {
            assert(tail[i] == s[i + start]);
        }
        lemma_trim_end(tail, end - start);
        assert(tail.subrange(0, end - start) =~= s.subrange(start as int, end as int));
    }
    text.substring_char(start, end)
}

/// Whether `a` and `b` hold the same characters.
pub fn same_text(a: &str, b: &str) -> (r: bool)
    ensures
        r == (a@ == b@),
{
    let left = a.as_bytes();
    let right = b.as_bytes();
    proof {
        vstd::utf8::encode_utf8_decode_utf8(a@);
        vstd::utf8::encode_utf8_decode_utf8(b@);
    }
    if left.len() != right.len() {
        return false;
    }
    let mut i: usize = 0;
    while i < left.len()
        invariant
            i <= left.len(),
            left.len() == right.len(),
            left@ == vstd::utf8::encode_utf8(a@),
            right@ == vstd::utf8::encode_utf8(b@),
            forall|j: int| 0 <= j < i ==> left@[j] == right@[j],
        decreases left.len() - i,
    {
        if left[i] != right[i] {
            return false;
        }
        i = i + 1;
    }
    assert(left@ =~= right@);
    true
}

/// A longer run of digits writes a number no smaller than any of its
/// prefixes does.
proof fn lemma_decimal_prefix(s: Seq<char>, k: int)
    requires
        0 <= k <= s.len(),
    ensures
        decimal_value(s.subrange(0, k)) <= decimal_value(s),
    decreases s.len(),
{
    if k == s.len() {
        assert(s.subrange(0, k) =~= s);
    } else {
        lemma_decimal_prefix(s.drop_last(), k);
        assert(s.drop_last().subrange(0, k) =~= s.subrange(0, k));
    }
}

/// Reads the characters of `text` from position `skip` on as a run of
/// digits, giving up as soon as the number passes `limit`.
fn scan_digits(text: &str, skip: usize, limit: u64) -> (r: Option<u64>)
    requires
        skip <= text@.len(),
        9 <= limit,
    ensures
        r == match digits_numeral(text@.skip(skip as int)) {
            Some(v) => if v <= limit {
                Some(v as u64)
            } else {
                None
            },
            None => None,
        },
{
    let len: usize = text.unicode_len();
    let ghost digits = text@.skip(skip as int);
    let mut value: u64 = 0;
    let mut n: usize = 0;
    for c in it: text.chars()
        invariant
            it.seq() == text@,
            len == text@.len(),
            n == it.index(),
            skip <= len,
            9 <= limit,
            digits == text@.skip(skip as int),
            n <= skip ==> value == 0,
            n > skip ==> all_digits(digits.subrange(0, n - skip)),
            n > skip ==> value == decimal_value(digits.subrange(0, n - skip)),
            value <= limit,
    {
        if n >= skip {
            let ghost seen = digits.subrange(0, n - skip);
            let ghost next = digits.subrange(0, n - skip + 1);
            assert(digits[n - skip] == c);
            assert(next.drop_last() =~= seen);
            assert(next.last() == c);
            if !('0' <= c && c <= '9') {
                assert(!is_digit(digits[n - skip]));
                return None;
            }
            let d: u64 = (c as u32 - 48) as u64;
            if value > (limit - d) / 10 {
                proof {
                    lemma_decimal_prefix(digits, n - skip + 1);
                }
                return None;
            }
            assert(decimal_value(seen) == value);
            assert(decimal_value(next) == decimal_value(seen) * 10 + digit_value(c));
            value = value * 10 + d;
            assert forall|i: int| 0 <= i < next.len() implies is_digit(#[trigger] next[i]) by {
                if i < seen.len() {
                    assert(next[i] == seen[i]);
                }
            }
        }
        n = n + 1;
    }
    assert(digits.subrange(0, len - skip) =~= digits);
    if len == skip {
        None
    } else {
        Some(value)
    }
}

/// Reads `text` as a signed decimal numeral: an optional sign, then digits
/// and nothing else. Returns `default` where `text` is no such numeral or
/// its number does not fit in an `i32`.
pub fn parse_i32_or(text: &str, default: i32) -> (r: i32)
    ensures
        r == i32_or(text@, default),
{
    if text.unicode_len() == 0 {
        return default;
    }
    let first: char = text.get_char(0);
    if first == '-' {
        assert(text@.skip(1) =~= text@.drop_first());
        match scan_digits(text, 1, 2147483648) {
            Some(m) => if m == 2147483648 {
                i32::MIN
            } else {
                -(m as i32)
            },
            None => default,
        }
    } else if first == '+' {
        assert(text@.skip(1) =~= text@.drop_first());
        match scan_digits(text, 1, 2147483647) {
            Some(m) => m as i32,
            None => default,
        }
    } else {
        assert(text@.skip(0) =~= text@);
        match scan_digits(text, 0, 2147483647) {
            Some(m) => m as i32,
            None => default,
        }
    }
}

/// Reads `text` as an unsigned decimal numeral: an optional `+`, then digits
/// and nothing else. Returns `default` where `text` is no such numeral or
/// its number does not fit in a `usize`.
pub fn parse_usize_or(text: &str, default: usize) -> (r: usize)
    ensures
        r == usize_or(text@, default),
{
    if text.unicode_len() == 0 {
        return default;
    }
    let first: char = text.get_char(0);
    let skip: usize = if first == '+' {
        1
    } else {
        0
    };
    assert(text@.skip(1) =~= text@.drop_first());
    assert(text@.skip(0) =~= text@);
    match scan_digits(text, skip, usize::MAX as u64) {
        Some(m) => m as usize,
        None => default,
    }
}

} // verus!
