//! Decoding of single TSV fields: the null token, integers, comma lists.
use vstd::prelude::*;
use vstd::string::*;

use crate::digits::{all_digits, digit_value, digits_value, is_digit, lemma_digits_value_prefix};

verus! {

/// A field that stands for an absent value: empty, or the two characters `\N`.
pub open spec fn is_null(s: Seq<char>) -> bool {
    s.len() == 0 || s == seq!['\\', 'N']
}

/// What a nullable text field holds.
pub open spec fn nullable_text_of(s: Seq<char>) -> Option<Seq<char>> {
    if is_null(s) {
        None
    } else {
        Some(s)
    }
}

/// The number written by a run of digits with an optional leading `+`.
pub open spec fn unsigned_text_value(s: Seq<char>) -> Option<nat> {
    let t = if s.len() > 0 && s[0] == '+' { s.skip(1) } else { s };
    if t.len() > 0 && all_digits(t) {
        Some(digits_value(t))
    } else {
        None
    }
}

/// The number written by a run of digits with an optional leading `+` or `-`.
pub open spec fn signed_text_value(s: Seq<char>) -> Option<int> {
    if s.len() > 0 && s[0] == '-' {
        let t = s.skip(1);
        if t.len() > 0 && all_digits(t) {
            Some(-(digits_value(t) as int))
        } else {
            None
        }
    } else {
        match unsigned_text_value(s) {
            Some(v) => Some(v as int),
            None => None,
        }
    }
}

/// The `i32` written in `s`, if it is an integer in range.
pub open spec fn i32_of(s: Seq<char>) -> Option<i32> {
    match signed_text_value(s) {
        Some(v) => if i32::MIN <= v <= i32::MAX {
            Some(v as i32)
        } else {
            None
        },
        None => None,
    }
}

/// The `u64` written in `s`, if it is a non-negative integer in range.
pub open spec fn u64_of(s: Seq<char>) -> Option<u64> {
    match unsigned_text_value(s) {
        Some(v) => if v <= u64::MAX {
            Some(v as u64)
        } else {
            None
        },
        None => None,
    }
}

/// What a nullable integer field holds: `Some(None)` for the null token,
/// `Some(Some(v))` for an integer in range, `None` for any other text.
pub open spec fn nullable_i32_of(s: Seq<char>) -> Option<Option<i32>> {
    if is_null(s) {
        Some(None)
    } else {
        match i32_of(s) {
            Some(v) => Some(Some(v)),
            None => None,
        }
    }
}

/// A flag written as the integer `0` or `1`.
pub open spec fn flag_of(s: Seq<char>) -> Option<bool> {
    match u64_of(s) {
        Some(v) => if v == 0 {
            Some(false)
        } else if v == 1 {
            Some(true)
        } else {
            None
        },
        None => None,
    }
}

/// The largest whole part that a tenths value may have.
pub const TENTHS_WHOLE_MAX: u64 = 400000000;

/// A decimal with at most one fractional digit (`8.6`, `7`), in tenths.
pub open spec fn tenths_of(s: Seq<char>) -> Option<u32> {
    if s.len() >= 3 && s[s.len() - 2] == '.' && is_digit(s.last()) {
        let a = s.take(s.len() - 2);
        if a.len() > 0 && all_digits(a) && digits_value(a) <= TENTHS_WHOLE_MAX {
            Some((digits_value(a) * 10 + digit_value(s.last())) as u32)
        } else {
            None
        }
    } else if s.len() > 0 && all_digits(s) && digits_value(s) <= TENTHS_WHOLE_MAX {
        Some((digits_value(s) * 10) as u32)
    } else {
        None
    }
}

/// A count that fits in 32 bits, written as `u64`'s `from_str` reads it.
pub open spec fn count_of(s: Seq<char>) -> Option<u32> {
    match u64_of(s) {
        Some(v) => if v <= u32::MAX {
            Some(v as u32)
        } else {
            None
        },
        None => None,
    }
}

/// The pieces of `s` between commas; an empty text is one empty piece.
pub open spec fn split_commas_of(s: Seq<char>) -> Seq<Seq<char>>
    decreases s.len(),
{
    if s.len() == 0 {
        seq![Seq::empty()]
    } else {
        let p = split_commas_of(s.drop_last());
        if s.last() == ',' {
            p.push(Seq::empty())
        } else {
            p.update(p.len() - 1, p.last().push(s.last()))
        }
    }
}

pub proof fn lemma_split_commas_nonempty(s: Seq<char>)
    ensures
        split_commas_of(s).len() >= 1,
    decreases s.len(),
{
    if s.len() > 0 {
        lemma_split_commas_nonempty(s.drop_last());
    }
}

/// Whether two texts are equal.
pub fn str_eq(a: &str, b: &str) -> (r: bool)
    ensures
        r == (a@ == b@),
{
    let n = a.unicode_len();
    if n != b.unicode_len() {
        return false;
    }
    let mut i: usize = 0;
    while i < n
        invariant
            n == a@.len(),
            n == b@.len(),
            0 <= i <= n,
            forall|j: int| 0 <= j < i ==> a@[j] == b@[j],
        decreases n - i,
    {
        if a.get_char(i) != b.get_char(i) {
            return false;
        }
        i = i + 1;
    }
    assert(a@ =~= b@);
    true
}

/// Whether a field stands for an absent value.
pub fn is_null_field(s: &str) -> (r: bool)
    ensures
        r == is_null(s@),
{
    proof {
        reveal_strlit("\\N");
        assert("\\N"@ =~= seq!['\\', 'N']);
    }
    s.unicode_len() == 0 || str_eq(s, "\\N")
}

/// A nullable text field: absent for the null token, else the text itself.
pub fn nullable_text(s: &str) -> (r: Option<String>)
    ensures
        r matches Some(t) ==> nullable_text_of(s@) == Some(t@),
        r is None ==> nullable_text_of(s@) is None,
{
    if is_null_field(s) {
        None
    } else {
        Some(s.to_owned())
    }
}

/// Reads the digits of `s` in positions `start..end`, if there is at least one,
/// all are digits, and their value is at most `limit`.
fn parse_digits(s: &str, start: usize, end: usize, limit: u64) -> (r: Option<u64>)
    requires
        start <= end <= s@.len(),
        limit >= 9,
    ensures
        r matches Some(v) ==> start < end && all_digits(s@.subrange(start as int, end as int))
            && v == digits_value(s@.subrange(start as int, end as int)) && v <= limit,
        r is None ==> !(start < end && all_digits(s@.subrange(start as int, end as int))
            && digits_value(s@.subrange(start as int, end as int)) <= limit),
{
    if start >= end {
        return None;
    }
    let ghost t = s@.subrange(start as int, end as int);
    let mut acc: u64 = 0;
    let mut i: usize = start;
    while i < end
        invariant
            start <= i <= end,
            end <= s@.len(),
            t == s@.subrange(start as int, end as int),
            all_digits(t.subrange(0, i - start)),
            acc == digits_value(t.subrange(0, i - start)),
            acc <= limit,
            limit >= 9,
        decreases end - i,
    {
        let c = s.get_char(i);
        if c < '0' || c > '9' {
            assert(!is_digit(t[i - start]));
            return None;
        }
        let d = (c as u32 - '0' as u32) as u64;
        assert(d <= 9);
        assert(t.subrange(0, i - start + 1).drop_last() =~= t.subrange(0, i - start));
        assert(digit_value(c) == d);
        if acc > (limit - d) / 10 {
            proof {
                assert(acc * 10 + d > limit) by (nonlinear_arith)
                    requires acc > (limit - d) / 10, d <= limit;
                lemma_digits_value_prefix(t, i - start + 1);
            }
            return None;
        }
        proof {
            assert(acc * 10 + d <= limit) by (nonlinear_arith)
                requires acc <= (limit - d) / 10, d <= limit;
        }
        acc = acc * 10 + d;
        i = i + 1;
    }
    assert(t.subrange(0, end - start) =~= t);
    Some(acc)
}

/// Reads a non-negative integer, as `u64`'s `from_str` does.
pub fn parse_u64(s: &str) -> (r: Option<u64>)
    ensures
        r == u64_of(s@),
{
    let n = s.unicode_len();
    let start: usize = if n > 0 && s.get_char(0) == '+' { 1 } else { 0 };
    proof {
        if start == 0 {
            assert(s@.subrange(0, n as int) =~= s@);
        } else {
            assert(s@.subrange(1, n as int) =~= s@.skip(1));
        }
    }
    parse_digits(s, start, n, u64::MAX)
}

/// Reads an integer, as `i32`'s `from_str` does.
pub fn parse_i32(s: &str) -> (r: Option<i32>)
    ensures
        r == i32_of(s@),
{
    let n = s.unicode_len();
    if n > 0 && s.get_char(0) == '-' {
        assert(s@.subrange(1, n as int) =~= s@.skip(1));
        match parse_digits(s, 1, n, 2147483648) {
            Some(m) => Some((0 - m as i64) as i32),
            None => None,
        }
    } else {
        let start: usize = if n > 0 && s.get_char(0) == '+' { 1 } else { 0 };
        proof {
            if start == 0 {
                assert(s@.subrange(0, n as int) =~= s@);
            } else {
                assert(s@.subrange(1, n as int) =~= s@.skip(1));
            }
        }
        match parse_digits(s, start, n, 2147483647) {
            Some(m) => Some(m as i32),
            None => None,
        }
    }
}

/// A nullable integer field: `Ok(None)` for the null token, `Ok(Some(v))` for an
/// integer in range, and an error for any other text.
pub fn nullable_i32(s: &str) -> (r: Result<Option<i32>, ()>)
    ensures
        r is Ok <==> nullable_i32_of(s@) is Some,
        r matches Ok(v) ==> nullable_i32_of(s@) == Some(v),
{
    if is_null_field(s) {
        Ok(None)
    } else {
        match parse_i32(s) {
            Some(v) => Ok(Some(v)),
            None => Err(()),
        }
    }
}

/// Reads a flag written as `0` or `1`.
pub fn parse_flag(s: &str) -> (r: Option<bool>)
    ensures
        r == flag_of(s@),
{
    match parse_u64(s) {
        Some(0) => Some(false),
        Some(1) => Some(true),
        _ => None,
    }
}

/// Reads a count that fits in 32 bits.
pub fn parse_count(s: &str) -> (r: Option<u32>)
    ensures
        r == count_of(s@),
{
    match parse_u64(s) {
        Some(v) => if v <= 0xffff_ffff {
            Some(v as u32)
        } else {
            None
        },
        None => None,
    }
}

/// Reads a decimal with at most one fractional digit, in tenths.
pub fn parse_tenths(s: &str) -> (r: Option<u32>)
    ensures
        r == tenths_of(s@),
{
    let n = s.unicode_len();
    if n >= 3 && s.get_char(n - 2) == '.' {
        let c = s.get_char(n - 1);
        if '0' <= c && c <= '9' {
            assert(s@.subrange(0, n - 2) =~= s@.take(n - 2));
            match parse_digits(s, 0, n - 2, TENTHS_WHOLE_MAX) {
                Some(a) => {
                    let d = (c as u32 - '0' as u32);
                    return Some((a * 10) as u32 + d);
                },
                None => {
                    return None;
                },
            }
        }
    }
    assert(s@.subrange(0, n as int) =~= s@);
    match parse_digits(s, 0, n, TENTHS_WHOLE_MAX) {
        Some(a) => Some((a * 10) as u32),
        None => None,
    }
}

/// Splits a comma-joined list, as `str::split(',')` does.
pub fn split_commas(s: &str) -> (r: Vec<String>)
    ensures
        r.deep_view() == split_commas_of(s@),
{
    let n = s.unicode_len();
    let mut pieces: Vec<String> = Vec::new();
    let mut cur = String::new();
    let mut i: usize = 0;
    while i < n
        invariant
            n == s@.len(),
            0 <= i <= n,
            pieces.deep_view().push(cur@) == split_commas_of(s@.take(i as int)),
        decreases n - i,
    {
        proof {
            lemma_split_commas_nonempty(s@.take(i as int));
            assert(s@.take(i as int + 1).drop_last() =~= s@.take(i as int));
        }
        let c = s.get_char(i);
        assert(s@.take(i as int + 1).last() == c);
        let ghost before = pieces.deep_view();
        if c == ',' {
            let done = cur;
            pieces.push(done);
            assert(pieces.deep_view() =~= before.push(done@));
            cur = String::new();
            assert(pieces.deep_view().push(cur@) =~= split_commas_of(s@.take(i as int + 1)));
        } else {
            let ghost old_cur = cur@;
            let one = s.substring_char(i, i + 1);
            assert(one@ =~= seq![c]);
            cur.append(one);
            assert(cur@ =~= old_cur.push(c));
            assert(pieces.deep_view().push(cur@) =~= split_commas_of(s@.take(i as int + 1)));
        }
        i = i + 1;
    }
    assert(s@.take(n as int) =~= s@);
    pieces.push(cur);
    pieces
}

} // verus!
