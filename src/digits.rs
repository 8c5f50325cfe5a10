use vstd::prelude::*;

verus! {

/// The decimal digit character for `d` (`d < 10`).
pub open spec fn digit_char(d: nat) -> char {
    if d == 0 { '0' }
    else if d == 1 { '1' }
    else if d == 2 { '2' }
    else if d == 3 { '3' }
    else if d == 4 { '4' }
    else if d == 5 { '5' }
    else if d == 6 { '6' }
    else if d == 7 { '7' }
    else if d == 8 { '8' }
    else { '9' }
}

pub open spec fn is_digit(c: char) -> bool {
    '0' <= c && c <= '9'
}

pub open spec fn digit_value(c: char) -> nat {
    (c as nat - '0' as nat) as nat
}

pub open spec fn all_digits(s: Seq<char>) -> bool {
    forall|i: int| 0 <= i < s.len() ==> is_digit(#[trigger] s[i])
}

/// The number that a run of decimal digits denotes (most significant first).
pub open spec fn digits_value(s: Seq<char>) -> nat
    decreases s.len(),
{
    if s.len() == 0 {
        0
    } else {
        digits_value(s.drop_last()) * 10 + digit_value(s.last())
    }
}

/// The last `w` decimal digits of `v`, most significant first, with leading zeros.
pub open spec fn decimal_digits(v: nat, w: nat) -> Seq<char>
    decreases w,
{
    if w == 0 {
        Seq::empty()
    } else {
        decimal_digits(v / 10, (w - 1) as nat).push(digit_char(v % 10))
    }
}

/// How many decimal digits `v` has without leading zeros (one for zero).
pub open spec fn digit_count(v: nat) -> nat
    decreases v,
{
    if v < 10 {
        1
    } else {
        1 + digit_count(v / 10)
    }
}

pub proof fn lemma_digit_char(d: nat)
    requires
        d < 10,
    ensures
        is_digit(digit_char(d)),
        digit_value(digit_char(d)) == d,
{
}

/// Powers of ten.
pub open spec fn pow10(k: nat) -> nat
    decreases k,
{
    if k == 0 {
        1
    } else {
        10 * pow10((k - 1) as nat)
    }
}

pub proof fn lemma_digit_count_pos(v: nat)
    ensures
        digit_count(v) >= 1,
        v >= 10 ==> digit_count(v) >= 2,
    decreases v,
{
    if v >= 10 {
        lemma_digit_count_pos(v / 10);
    }
}

/// A number below `10^k` has at most `k` digits.
pub proof fn lemma_digit_count_bound(v: nat, k: nat)
    requires
        k >= 1,
        v < pow10(k),
    ensures
        digit_count(v) <= k,
    decreases k,
{
    if v >= 10 {
        if k == 1 {
            assert(pow10(0) == 1);
        } else {
            assert(pow10(k) == 10 * pow10((k - 1) as nat));
            lemma_digit_count_bound(v / 10, (k - 1) as nat);
        }
    }
}

/// Every `u32` has at most ten decimal digits.
pub proof fn lemma_digit_count_u32(v: u32)
    ensures
        digit_count(v as nat) <= 10,
{
    reveal_with_fuel(pow10, 11);
    assert(pow10(10) == 10000000000);
    lemma_digit_count_bound(v as nat, 10);
}

pub proof fn lemma_decimal_digits(v: nat, w: nat)
    requires
        digit_count(v) <= w,
    ensures
        decimal_digits(v, w).len() == w,
        all_digits(decimal_digits(v, w)),
        digits_value(decimal_digits(v, w)) == v,
    decreases w,
{
    let s = decimal_digits(v, w);
    lemma_digit_char(v % 10);
    lemma_digit_count_pos(v);
    lemma_digit_count_pos(v / 10);
    if w == 1 {
        assert(v < 10);
        assert(decimal_digits(v / 10, 0) =~= Seq::<char>::empty());
        assert(s.drop_last() =~= Seq::<char>::empty());
        assert(digits_value(s.drop_last()) == 0);
    } else {
        lemma_decimal_digits(v / 10, (w - 1) as nat);
        assert(s.drop_last() =~= decimal_digits(v / 10, (w - 1) as nat));
    }
    assert(s.last() == digit_char(v % 10));
    assert(digits_value(s) == digits_value(s.drop_last()) * 10 + digit_value(s.last()));
    assert((v / 10) * 10 + v % 10 == v);
}

/// A longer run of digits never denotes a smaller number than its prefix.
pub proof fn lemma_digits_value_prefix(s: Seq<char>, n: int)
    requires
        0 <= n <= s.len(),
    ensures
        digits_value(s.subrange(0, n)) <= digits_value(s),
    decreases s.len() - n,
{
    if n < s.len() {
        lemma_digits_value_prefix(s, n + 1);
        assert(s.subrange(0, n + 1).drop_last() =~= s.subrange(0, n));
    } else {
        assert(s.subrange(0, n) =~= s);
    }
}

} // verus!
